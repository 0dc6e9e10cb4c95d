//! The guard against a worker that calls one tool over and over.
//!
//! A call is identified by its tool and its arguments. Each call that gives the
//! same output as the one before it raises its count; from one threshold on the
//! output carries guidance, from another on it carries an abort, and the guard
//! is escalated for good. A failure that trying again may mend is not counted.
use crate::json::ordering::{
    in_key_order, insert_in_order, rendered_texts, rendered_views, texts_of, Rendered, RenderedText,
};
use crate::json::{scalar_text, write_scalar, Json, Member};
use crate::mcp::response::CallOutcome;
use crate::text::numerals::{numeral, usize_text};
use crate::text::search::{replace, replaced};
use crate::text::trim::{join, joined, views};
use crate::text::same;
use std::collections::hash_map::DefaultHasher;
use std::collections::HashMap;
use std::hash::Hasher;
use vstd::prelude::*;
use vstd::std_specs::hash::DefaultHasherAdditionalSpecFns;
use vstd::utf8::encode_utf8;

verus! {

/// What is appended from the nudge threshold on.
pub const GUIDANCE_TEMPLATE: &'static str = "[DUPLICATE_CALL_GUIDANCE] '%%TOOL_NAME%%' was called %%COUNT%% times in a row with the same arguments and gave the same result. Use the result above, or change the arguments.";

/// What is appended from the block threshold on.
pub const ABORT_TEMPLATE: &'static str = "[DUPLICATE_CALL_ABORT] '%%TOOL_NAME%%' was called %%COUNT%% times in a row with the same arguments and gave the same result. Stop calling it and report what you have.";

/// The member of a call's arguments that says why the call is made. It varies
/// from call to call and does not change what the tool does.
pub const REASONING_KEY: &'static str = "_aura_reasoning";

/// The member that names the tool of a guarded call.
pub const TOOL_NAME_KEY: &'static str = "dup_guard_tool_name";

/// The member that holds the fingerprint of a guarded call.
pub const ARGS_HASH_KEY: &'static str = "dup_guard_args_hash";

// ---------------------------------------------------------------------------
// Canonical arguments
// ---------------------------------------------------------------------------

/// The members that count, each with its text: those of the first `n` whose
/// key is not the reasoning.
pub open spec fn rendered_members(members: Seq<Member>, n: int) -> Seq<Rendered>
    decreases members, n,
{
    if n <= 0 || n > members.len() {
        Seq::empty()
    } else {
        let before = rendered_members(members, n - 1);
        let m = members[n - 1];
        if m.key@ == REASONING_KEY@ {
            before
        } else {
            before.push(Rendered { key: m.key@, text: m.key@ + ":"@ + canonical(m.value) })
        }
    }
}

/// The texts of the first `n` items.
pub open spec fn rendered_items(items: Seq<Json>, n: int) -> Seq<Seq<char>>
    decreases items, n,
{
    if n <= 0 || n > items.len() {
        Seq::empty()
    } else {
        rendered_items(items, n - 1).push(canonical(items[n - 1]))
    }
}

/// The canonical text of arguments: objects list their members in the order of
/// their keys and without the reasoning.
pub open spec fn canonical(v: Json) -> Seq<char>
    decreases v,
{
    match v {
        Json::Object(members) => "{"@ + joined(
            rendered_texts(in_key_order(rendered_members(members@, members@.len() as int))),
            ","@,
        ) + "}"@,
        Json::Array(items) => "["@ + joined(rendered_items(items@, items@.len() as int), ","@)
            + "]"@,
        _ => scalar_text(v),
    }
}

/// The canonical texts of an object's members, in the order of their keys.
fn canonical_members(members: &Vec<Member>) -> (r: Vec<RenderedText>)
    ensures
        rendered_views(r@) == in_key_order(rendered_members(members@, members@.len() as int)),
    decreases members@,
{
    let mut list: Vec<RenderedText> = Vec::new();
    let mut i: usize = 0;
    assert(rendered_views(list@) =~= Seq::<Rendered>::empty());
    while i < members.len()
        invariant
            i <= members@.len(),
            rendered_views(list@) == in_key_order(rendered_members(members@, i as int)),
        decreases members@.len() - i,
    {
        let ghost before = rendered_members(members@, i as int);
        if !same(members[i].key.as_str(), REASONING_KEY) {
            assert(decreases_to!(members@ => members@[i as int]));
            let mut text = members[i].key.clone();
            text.append(":");
            text.append(canonicalize_args(&members[i].value).as_str());
            let ghost added = Rendered { key: members@[i as int].key@, text: text@ };
            insert_in_order(&mut list, RenderedText { key: members[i].key.clone(), text });
            assert(before.push(added).drop_last() =~= before);
        }
        i = i + 1;
    }
    list
}

/// The canonical texts of an array's items.
fn canonical_items(items: &Vec<Json>) -> (r: Vec<String>)
    ensures
        views(r@) == rendered_items(items@, items@.len() as int),
    decreases items@,
{
    let mut out: Vec<String> = Vec::new();
    let mut i: usize = 0;
    assert(views(out@) =~= Seq::<Seq<char>>::empty());
    while i < items.len()
        invariant
            i <= items@.len(),
            views(out@) == rendered_items(items@, i as int),
        decreases items@.len() - i,
    {
        assert(decreases_to!(items@ => items@[i as int]));
        let ghost before = views(out@);
        let text = canonicalize_args(&items[i]);
        out.push(text);
        assert(views(out@) =~= before.push(text@));
        i = i + 1;
    }
    out
}

/// The canonical text of arguments.
pub fn canonicalize_args(value: &Json) -> (r: String)
    ensures
        r@ == canonical(*value),
    decreases value,
{
    match value {
        Json::Object(members) => {
            let list = canonical_members(members);
            let texts = texts_of(&list);
            let mut out = "{".to_owned();
            out.append(join(&texts, ",").as_str());
            out.append("}");
            out
        },
        Json::Array(items) => {
            let texts = canonical_items(items);
            let mut out = "[".to_owned();
            out.append(join(&texts, ",").as_str());
            out.append("]");
            out
        },
        _ => write_scalar(value),
    }
}

// ---------------------------------------------------------------------------
// The guard
// ---------------------------------------------------------------------------

/// The fingerprint of a call: the standard hasher over the tool's name and the
/// canonical arguments, each followed by the byte that ends a string.
pub open spec fn call_fingerprint(tool_name: Seq<char>, arguments: Json) -> u64 {
    DefaultHasher::spec_finish(
        seq![
            encode_utf8(tool_name),
            seq![0xffu8],
            encode_utf8(canonical(arguments)),
            seq![0xffu8],
        ],
    )
}

/// The fingerprint of a call.
pub fn fingerprint(tool_name: &str, args: &Json) -> (r: u64)
    ensures
        r == call_fingerprint(tool_name@, *args),
{
    let text = canonicalize_args(args);
    let end: Vec<u8> = vec![0xff];
    assert(end@ =~= seq![0xffu8]);
    let mut hasher = DefaultHasher::new();
    hasher.write(tool_name.as_bytes());
    hasher.write(end.as_slice());
    hasher.write(text.as_str().as_bytes());
    hasher.write(end.as_slice());
    assert(hasher@ =~= seq![
        encode_utf8(tool_name@),
        seq![0xffu8],
        encode_utf8(canonical(*args)),
        seq![0xffu8],
    ]);
    hasher.finish()
}

/// A template with the tool's name and the count filled in, in this order.
pub open spec fn filled(template: Seq<char>, tool_name: Seq<char>, count: nat) -> Seq<char> {
    replaced(
        replaced(template, "%%TOOL_NAME%%"@, tool_name),
        "%%COUNT%%"@,
        numeral(count),
    )
}

/// Fill in a template.
pub fn render_template(template: &str, tool_name: &str, count: usize) -> (r: String)
    ensures
        r@ == filled(template@, tool_name@, count as nat),
{
    proof {
        reveal_strlit("%%TOOL_NAME%%");
        reveal_strlit("%%COUNT%%");
    }
    let named = replace(template, "%%TOOL_NAME%%", tool_name);
    replace(named.as_str(), "%%COUNT%%", usize_text(count).as_str())
}

/// What the guard knows of one call.
#[derive(Debug)]
pub struct CallState {
    /// How often in a row it gave the same output.
    pub consecutive_count: usize,
    /// The output it gave last.
    pub last_output: String,
}

/// What the guard knows of one call.
pub struct CallModel {
    pub count: nat,
    pub last: Seq<char>,
}

/// What the guard knows: of each call, and whether it is escalated.
#[verifier::ext_equal]
pub struct GuardModel {
    pub calls: Map<u64, CallModel>,
    pub escalated: bool,
}

/// What the guard knows of a call after one more output: the count goes up
/// where the output is the last one again, and starts over where it is not.
pub open spec fn counted(calls: Map<u64, CallModel>, hash: u64, output: Seq<char>) -> CallModel {
    let known = if calls.dom().contains(hash) {
        calls[hash]
    } else {
        CallModel { count: 0, last: Seq::empty() }
    };
    if known.last == output {
        CallModel { count: known.count + 1, last: output }
    } else {
        CallModel { count: 1, last: output }
    }
}

/// An output with an annotation after it.
pub open spec fn annotated(output: Seq<char>, note: Seq<char>) -> Seq<char> {
    output + "\n\n"@ + note
}

/// What a guarded output becomes, and what the guard knows afterwards. Without
/// guard data, for an error that trying again may mend, and once escalated,
/// nothing changes.
pub open spec fn guard_step(
    at: GuardModel,
    nudge: nat,
    block: nat,
    data: Option<(Seq<char>, u64)>,
    general_error: bool,
    output: Seq<char>,
) -> (GuardModel, Seq<char>) {
    match data {
        None => (at, output),
        Some((tool_name, hash)) => if general_error || at.escalated {
            (at, output)
        } else {
            let call = counted(at.calls, hash, output);
            let calls = at.calls.insert(hash, call);
            if call.count >= block {
                (
                    GuardModel { calls, escalated: true },
                    annotated(output, filled(ABORT_TEMPLATE@, tool_name, call.count)),
                )
            } else if call.count >= nudge {
                (
                    GuardModel { calls, escalated: false },
                    annotated(output, filled(GUIDANCE_TEMPLATE@, tool_name, call.count)),
                )
            } else {
                (GuardModel { calls, escalated: false }, output)
            }
        },
    }
}

/// The guard data in one value: the tool's name and the fingerprint.
pub open spec fn own_guard_data(v: Json) -> Option<(Seq<char>, u64)> {
    match (v.member(TOOL_NAME_KEY@), v.member(ARGS_HASH_KEY@)) {
        (Some(name), Some(hash)) => match (name.text(), hash.unsigned()) {
            (Some(text), Some(n)) => Some((text, n)),
            _ => None,
        },
        _ => None,
    }
}

/// The first item at or after place `i` that names a guarded tool.
pub open spec fn first_guarded(items: Seq<Json>, i: int) -> Option<Json>
    decreases items.len() - i,
{
    if i < 0 || i >= items.len() {
        None
    } else if items[i].member(TOOL_NAME_KEY@) is Some {
        Some(items[i])
    } else {
        first_guarded(items, i + 1)
    }
}

/// The guard data that wrappers extracted: in the value itself, or in the first
/// item of an array that names a guarded tool.
pub open spec fn guard_data(extracted: Option<Json>) -> Option<(Seq<char>, u64)> {
    match extracted {
        None => None,
        Some(v) => match v {
            Json::Array(items) => match first_guarded(items@, 0) {
                Some(item) => own_guard_data(item),
                None => None,
            },
            _ => own_guard_data(v),
        },
    }
}

fn read_own_guard_data(v: &Json) -> (r: Option<(String, u64)>)
    ensures
        match r {
            Some((name, hash)) => own_guard_data(*v) == Some((name@, hash)),
            None => own_guard_data(*v) is None,
        },
{
    let name = match v.get(TOOL_NAME_KEY) {
        Some(name) => match name.as_str() {
            Some(text) => text,
            None => {
                return None;
            },
        },
        None => {
            return None;
        },
    };
    match v.get(ARGS_HASH_KEY) {
        Some(hash) => match hash.as_u64() {
            Some(n) => Some((name.to_owned(), n)),
            None => None,
        },
        None => None,
    }
}

/// Read the guard data that wrappers extracted.
pub fn extract_guard_data(extracted: Option<&Json>) -> (r: Option<(String, u64)>)
    ensures
        ({
            let value = match extracted {
                Some(v) => Some(*v),
                None => None,
            };
            match r {
                Some((name, hash)) => guard_data(value) == Some((name@, hash)),
                None => guard_data(value) is None,
            }
        }),
{
    match extracted {
        None => None,
        Some(v) => match v {
            Json::Array(items) => {
                let mut i: usize = 0;
                while i < items.len()
                    invariant
                        i <= items@.len(),
                        extracted == Some(v),
                        *v == Json::Array(*items),
                        first_guarded(items@, 0) == first_guarded(items@, i as int),
                    decreases items@.len() - i,
                {
                    if items[i].get(TOOL_NAME_KEY).is_some() {
                        return read_own_guard_data(&items[i]);
                    }
                    i = i + 1;
                }
                None
            },
            _ => read_own_guard_data(v),
        },
    }
}

/// The call that a wrapper sees.
#[derive(Debug, PartialEq, Eq)]
pub struct ToolCallContext {
    /// The tool's name.
    pub tool_name: String,
}

impl ToolCallContext {
    /// A call of a tool.
    pub fn new(tool_name: &str) -> (r: Self)
        ensures
            r.tool_name@ == tool_name@,
    {
        ToolCallContext { tool_name: tool_name.to_owned() }
    }
}

/// Arguments, and what a wrapper extracted from them.
#[derive(Debug, PartialEq, Eq)]
pub struct TransformArgsResult {
    pub args: Json,
    pub extracted: Option<Json>,
}

/// An output as a wrapper leaves it.
#[derive(Debug, PartialEq, Eq)]
pub struct TransformOutputResult {
    pub output: String,
}

/// The guard of one worker.
#[derive(Debug)]
pub struct DuplicateCallGuard {
    nudge_threshold: usize,
    block_threshold: usize,
    escalated: bool,
    state: HashMap<u64, CallState>,
}

impl DuplicateCallGuard {
    /// The count from which an output carries guidance.
    pub closed spec fn nudge(self) -> nat {
        self.nudge_threshold as nat
    }

    /// The count from which an output carries an abort.
    pub closed spec fn block(self) -> nat {
        self.block_threshold as nat
    }

    /// What the guard knows.
    pub closed spec fn model(self) -> GuardModel {
        GuardModel {
            calls: self.state@.map_values(
                |c: CallState| CallModel { count: c.consecutive_count as nat, last: c.last_output@ },
            ),
            escalated: self.escalated,
        }
    }

    /// Until the guard is escalated, every count is below the block threshold.
    #[verifier::type_invariant]
    spec fn counts_are_bounded(self) -> bool {
        !self.escalated ==> forall|hash: u64| #[trigger]
            self.state@.dom().contains(hash) ==> self.state@[hash].consecutive_count
                < self.block_threshold
    }

    /// A guard that has seen no call. It is escalated from the start where the
    /// worker was escalated before.
    pub fn new(nudge_threshold: usize, block_threshold: usize, escalated: bool) -> (r: Self)
        ensures
            r.nudge() == nudge_threshold,
            r.block() == block_threshold,
            r.model() == (GuardModel { calls: Map::empty(), escalated }),
    {
        let r = DuplicateCallGuard {
            nudge_threshold,
            block_threshold,
            escalated,
            state: HashMap::new(),
        };
        assert(r.model().calls =~= Map::empty());
        r
    }

    /// Escalates the guard because the worker was escalated elsewhere.
    pub fn escalate(&mut self)
        ensures
            final(self).nudge() == old(self).nudge(),
            final(self).block() == old(self).block(),
            final(self).model() == (GuardModel { escalated: true, ..old(self).model() }),
    {
        self.escalated = true;
    }

    /// Whether the guard is escalated.
    pub fn is_escalated(&self) -> (r: bool)
        ensures
            r == self.model().escalated,
    {
        self.escalated
    }

    /// Leave the arguments as they are, and extract the tool's name and the
    /// call's fingerprint.
    pub fn transform_args(&self, args: Json, ctx: &ToolCallContext) -> (r: TransformArgsResult)
        ensures
            r.args == args,
            guard_data(r.extracted) == Some(
                (ctx.tool_name@, call_fingerprint(ctx.tool_name@, args)),
            ),
    {
        proof {
            reveal_strlit("dup_guard_args_hash");
            reveal_strlit("dup_guard_tool_name");
        }
        let hash = fingerprint(ctx.tool_name.as_str(), &args);
        let members: Vec<Member> = vec![
            Member { key: ARGS_HASH_KEY.to_owned(), value: Json::UInt(hash) },
            Member { key: TOOL_NAME_KEY.to_owned(), value: Json::Text(ctx.tool_name.clone()) },
        ];
        proof {
            assert(ARGS_HASH_KEY@[10] != TOOL_NAME_KEY@[10]);
            reveal_with_fuel(crate::json::find_member, 3);
        }
        TransformArgsResult { args, extracted: Some(Json::Object(members)) }
    }

    /// Count a call's output and annotate it from the thresholds on. The
    /// output itself always stands first.
    pub fn transform_output(
        &mut self,
        output: String,
        outcome: &CallOutcome,
        extracted: Option<&Json>,
    ) -> (r: TransformOutputResult)
        ensures
            final(self).nudge() == old(self).nudge(),
            final(self).block() == old(self).block(),
            (final(self).model(), r.output@) == guard_step(
                old(self).model(),
                old(self).nudge(),
                old(self).block(),
                guard_data(
                    match extracted {
                        Some(v) => Some(*v),
                        None => None,
                    },
                ),
                *outcome is GeneralToolError,
                output@,
            ),
    {
        let (tool_name, hash) = match extract_guard_data(extracted) {
            Some(data) => data,
            None => {
                return TransformOutputResult { output };
            },
        };
        let retryable = match outcome {
            CallOutcome::GeneralToolError { .. } => true,
            _ => false,
        };
        if retryable || self.escalated {
            return TransformOutputResult { output };
        }
        proof {
            use_type_invariant(&*self);
        }
        let ghost before = self.model();
        let mut state: HashMap<u64, CallState> = HashMap::new();
        std::mem::swap(&mut state, &mut self.state);
        let repeated: Option<usize> = match state.get(&hash) {
            Some(call) => if call.last_output == output {
                assert(before.calls.dom().contains(hash));
                assert(before.calls[hash].count == call.consecutive_count);
                Some(call.consecutive_count)
            } else {
                assert(before.calls.dom().contains(hash));
                None
            },
            None => if output.as_str().is_empty() {
                assert(output@ =~= Seq::<char>::empty());
                Some(0)
            } else {
                None
            },
        };
        let ghost call = counted(before.calls, hash, output@);
        let count: usize = match repeated {
            Some(n) => n + 1,
            None => 1,
        };
        assert(count == call.count);
        state.insert(hash, CallState { consecutive_count: count, last_output: output.clone() });
        if count >= self.block_threshold {
            self.escalated = true;
            self.state = state;
            assert(self.model().calls =~= before.calls.insert(hash, call));
            let note = render_template(ABORT_TEMPLATE, tool_name.as_str(), count);
            let mut text = output;
            text.append("\n\n");
            text.append(note.as_str());
            return TransformOutputResult { output: text };
        }
        self.state = state;
        assert(self.model().calls =~= before.calls.insert(hash, call));
        if count >= self.nudge_threshold {
            let note = render_template(GUIDANCE_TEMPLATE, tool_name.as_str(), count);
            let mut text = output;
            text.append("\n\n");
            text.append(note.as_str());
            return TransformOutputResult { output: text };
        }
        TransformOutputResult { output }
    }
}

} // verus!
