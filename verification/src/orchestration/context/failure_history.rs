//! Failure identity and failure records.
use super::error::ContextError;
use super::evidence::ErrorPreview;
use super::label::{role_text, IterationNumber, WorkerRole};
use super::rendered::RenderedContext;
use crate::orchestration::types::FailureCategory;
use crate::text::numerals::numeral;
use crate::text::trim::{
    lemma_line_end, lemma_trimmed_end, lemma_trimmed_start, line_end, lines, split_lines, trim_end,
    trim_start, trimmed_end, trimmed_start, views, without_carriage_return,
};
use crate::text::{is_blank, is_white_space, truncate_to_chars};
use vstd::prelude::*;

verus! {

/// The bound on the text of a handle, in characters; the marker follows it.
pub const HANDLE_CHARS: usize = 120;

/// The marker of a handle that was cut.
pub const HANDLE_MARKER: &'static str = "...";

/// The first line of a description, without white space at either end. What
/// stands before the first visible character carries no identity.
pub open spec fn first_line(description: Seq<char>) -> Seq<char> {
    let all = lines(trimmed_start(description));
    if all.len() == 0 {
        Seq::empty()
    } else {
        trimmed_end(all[0])
    }
}

/// A line cut to the bound, with the marker where it was cut.
pub open spec fn capped(line: Seq<char>) -> Seq<char> {
    if line.len() > HANDLE_CHARS {
        line.take(HANDLE_CHARS as int) + HANDLE_MARKER@
    } else {
        line
    }
}

/// The handle of a task with a given description.
pub open spec fn handle_text(description: Seq<char>) -> Seq<char> {
    capped(first_line(description))
}

/// The stable identity of a failed task, derived from its description.
#[derive(Debug, PartialEq, Eq, Hash)]
pub struct FailureHandle {
    text: String,
}

impl View for FailureHandle {
    type V = Seq<char>;

    closed spec fn view(&self) -> Seq<char> {
        self.text@
    }
}

impl Clone for FailureHandle {
    fn clone(&self) -> (r: Self)
        ensures
            r == *self,
    {
        FailureHandle { text: self.text.clone() }
    }
}

impl FailureHandle {
    /// The bound on the text, in characters.
    pub const MAX_CHARS: usize = HANDLE_CHARS;

    /// The marker that follows a cut text.
    pub const TRUNCATION_MARKER: &'static str = HANDLE_MARKER;

    /// Derive the handle of a description; a blank description has none.
    pub fn from_description(description: &str) -> (r: Result<Self, ContextError>)
        ensures
            match r {
                Ok(handle) => !is_blank(description@) && handle@ == handle_text(description@),
                Err(e) => is_blank(description@) && e == ContextError::EmptyFailureDescription,
            },
    {
        let all = split_lines(trim_start(description));
        proof {
            lemma_first_line(description@);
        }
        if all.len() == 0 {
            return Err(ContextError::EmptyFailureDescription);
        }
        let line = trim_end(all[0].as_str());
        assert(views(all@)[0] == all@[0]@);
        assert(line@ == first_line(description@));
        if line.is_empty() {
            return Err(ContextError::EmptyFailureDescription);
        }
        let (kept, cut) = truncate_to_chars(line, HANDLE_CHARS);
        let mut text = kept.to_owned();
        if cut {
            text.append(HANDLE_MARKER);
        }
        Ok(FailureHandle { text })
    }

    /// The text of the handle.
    pub fn as_str(&self) -> (r: &str)
        ensures
            r@ == self@,
    {
        self.text.as_str()
    }
}

/// The first line of a description is empty exactly where the description is
/// blank; it holds no line feed, and neither end of it is white space.
pub proof fn lemma_first_line(description: Seq<char>)
    ensures
        (first_line(description).len() == 0) == is_blank(description),
        forall|i: int| 0 <= i < first_line(description).len() ==> first_line(description)[i] != '\n',
        first_line(description).len() > 0 ==> {
            &&& !is_white_space(first_line(description)[0])
            &&& !is_white_space(first_line(description).last())
        },
{
    let s = trimmed_start(description);
    lemma_trimmed_start(description);
    if s.len() > 0 {
        lemma_line_end(s);
        let n = line_end(s) as int;
        let raw = s.take(n);
        let line = if n >= s.len() {
            s
        } else {
            without_carriage_return(raw)
        };
        assert(s[0] != '\n');
        assert(n > 0);
        assert(lines(s)[0] == line);
        assert(line.len() > 0) by {
            if n < s.len() && raw.last() == '\r' && n == 1 {
                assert(raw[0] == s[0]);
            }
        }
        assert(line[0] == s[0]);
        lemma_trimmed_end(line);
        assert(!is_white_space(line[0]));
        let t = trimmed_end(line);
        assert(t.len() > 0) by {
            if t.len() == 0 {
                assert(is_blank(line));
            }
        }
        assert(t[0] == line[0]);
        assert forall|i: int| 0 <= i < t.len() implies t[i] != '\n' by {
            assert(t[i] == line[i]);
            assert(line[i] == s[i]);
        }
        assert(!is_white_space(description[description.len() - s.len()]));
    }
}

/// What follows the first line of a description does not change its handle.
pub proof fn law_handle_ignores_later_lines(line: Seq<char>, later: Seq<char>)
    requires
        !is_blank(line),
        forall|i: int| 0 <= i < line.len() ==> line[i] != '\n',
    ensures
        handle_text(line + seq!['\n'] + later) == handle_text(line),
{
    let s = trimmed_start(line);
    let whole = line + seq!['\n'] + later;
    lemma_trimmed_start(line);
    lemma_trimmed_start_concat(line, seq!['\n'] + later);
    assert(whole =~= line + (seq!['\n'] + later));
    let t = trimmed_start(whole);
    assert(t =~= s + seq!['\n'] + later);
    lemma_line_end(s);
    lemma_line_end(t);
    let k = line.len() - s.len();
    assert forall|i: int| 0 <= i < s.len() implies s[i] != '\n' by {
        assert(s[i] == line[k + i]);
    }
    assert(line_end(s) == s.len());
    assert(t[s.len() as int] == '\n');
    assert(line_end(t) == s.len()) by {
        let e = line_end(t) as int;
        if e < s.len() {
            assert(t[e] == s[e]);
        }
    }
    assert(t.take(s.len() as int) =~= s);
    assert(lines(s)[0] == s);
    assert(lines(t)[0] == without_carriage_return(s));
    if s.last() == '\r' {
        assert(trimmed_end(s) == trimmed_end(s.drop_last()));
    }
}

/// Leading white space is stripped before anything that follows is looked at.
proof fn lemma_trimmed_start_concat(a: Seq<char>, b: Seq<char>)
    requires
        !is_blank(a),
    ensures
        trimmed_start(a + b) == trimmed_start(a) + b,
    decreases a.len(),
{
    assert((a + b)[0] == a[0]) by {
        if a.len() == 0 {
            assert(is_blank(a));
        }
    }
    if is_white_space(a[0]) {
        let t = a.drop_first();
        assert((a + b).drop_first() =~= t + b);
        assert(!is_blank(t)) by {
            if is_blank(t) {
                assert forall|i: int| 0 <= i < a.len() implies is_white_space(#[trigger] a[i]) by {
                    if i > 0 {
                        assert(a[i] == t[i - 1]);
                    }
                }
            }
        }
        lemma_trimmed_start_concat(t, b);
    }
}

/// A handle is no longer than the bound and the marker, and the text before a
/// marker is the beginning of the first line.
pub proof fn law_handle_is_bounded(description: Seq<char>)
    ensures
        handle_text(description).len() <= HANDLE_CHARS + HANDLE_MARKER@.len(),
        first_line(description).len() <= HANDLE_CHARS ==> handle_text(description) == first_line(
            description,
        ),
        first_line(description).len() > HANDLE_CHARS ==> first_line(description).take(
            HANDLE_CHARS as int,
        ).is_prefix_of(handle_text(description)),
{
}

/// A handle is its own handle: deriving one from the text of a handle changes
/// nothing, so records group together however often the text was handed on.
pub proof fn law_handle_is_stable(description: Seq<char>)
    requires
        !is_blank(description),
    ensures
        handle_text(handle_text(description)) == handle_text(description),
{
    reveal_strlit("...");
    let l = first_line(description);
    let h = handle_text(description);
    lemma_first_line(description);
    assert(h.len() > 0);
    assert(h[0] == l[0]);
    assert(!is_white_space(h.last()));
    assert(trimmed_start(h) == h);
    assert forall|i: int| 0 <= i < h.len() implies h[i] != '\n' by {
        if i < l.len() && i < HANDLE_CHARS {
            assert(h[i] == l[i]);
        }
    }
    lemma_line_end(h);
    assert(line_end(h) == h.len());
    assert(lines(h)[0] == h);
    assert(first_line(h) == h);
    if l.len() > HANDLE_CHARS {
        assert(h.take(HANDLE_CHARS as int) =~= l.take(HANDLE_CHARS as int));
    }
}

/// One record of the failure history.
#[derive(Debug, PartialEq, Eq)]
pub struct FailureRecord {
    /// The iteration of the failure.
    pub iteration: IterationNumber,
    /// The identity of the failed task.
    pub handle: FailureHandle,
    /// The worker that the task went to, where one was assigned.
    pub worker: Option<WorkerRole>,
    /// Why the task failed.
    pub category: FailureCategory,
    /// The bounded error.
    pub error: ErrorPreview,
}

impl FailureRecord {
    /// The text of the record.
    pub open spec fn text(self) -> Seq<char> {
        "- Iteration "@ + numeral(self.iteration@ as nat) + ": \""@ + self.handle@ + "\""@ + (
        match role_text(self.worker) {
            Some(w) => " (worker: "@ + w + ")"@,
            None => Seq::empty(),
        }) + " - ["@ + self.category.name() + "] "@ + self.error.shown()
    }

    /// The key under which repeated failures group: handle and category. The
    /// same task failing under another category is not a repeat.
    pub fn repeat_key(&self) -> (r: (&FailureHandle, FailureCategory))
        ensures
            *r.0 == self.handle,
            r.1 == self.category,
    {
        (&self.handle, self.category)
    }

    /// Render the record:
    /// `- Iteration {n}: "{handle}" (worker: {w}) - [{category}] {error}`.
    pub fn render(&self) -> (r: RenderedContext)
        ensures
            r@ == self.text(),
    {
        let mut s = "- Iteration ".to_owned();
        s.append(self.iteration.to_string().as_str());
        s.append(": \"");
        s.append(self.handle.as_str());
        s.append("\"");
        let ghost bare = s@;
        match &self.worker {
            Some(worker) => {
                s.append(" (worker: ");
                s.append(worker.as_str());
                s.append(")");
            },
            None => {},
        }
        assert(s@ =~= bare + (match role_text(self.worker) {
            Some(w) => " (worker: "@ + w + ")"@,
            None => Seq::empty(),
        }));
        s.append(" - [");
        s.append(self.category.as_str());
        s.append("] ");
        s.append(self.error.to_string().as_str());
        RenderedContext::new(s)
    }
}

} // verus!
