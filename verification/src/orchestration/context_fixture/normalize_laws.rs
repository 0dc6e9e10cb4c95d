//! What writing a request as a document replaces, orders and refuses, and what
//! it leaves as it is.
use super::envelope::{Message, RequestEnvelope};
use super::normalize::{
    any_holds, assistant_bodies, document, first_defect, first_malformed, headed, is_malformed,
    is_stamped, marker_defect, role, sorted, span_sorted, stamped_count, unstamped, user_bodies,
    user_defect, workers_in_order, written_body, written_messages, Marker, NormalizationDefect,
};
use crate::text::numerals::numeral;
use crate::text::parts::{lemma_holds_in, lemma_holds_what_a_part_holds};
use crate::text::search::{
    contains_text, first_of, lemma_find_from, occurrences, occurs_at, split_at_each,
};
use crate::text::sorting::{is_sorting_of, lemma_sorting_unique};
use crate::text::trim::joined;
use vstd::prelude::*;

verus! {

/// Whether a text is a time to the second, as in `2026-07-08T00:33:54Z`.
pub open spec fn is_time(t: Seq<char>) -> bool {
    &&& t.len() == 20
    &&& t[4] == '-' && t[7] == '-' && t[10] == 'T' && t[13] == ':' && t[16] == ':' && t[19] == 'Z'
    &&& forall|i: int|
        0 <= i < 20 && i != 4 && i != 7 && i != 10 && i != 13 && i != 16 && i != 19 ==> '0'
            <= #[trigger] t[i] <= '9'
}

/// The time that opens a message is replaced, whatever it is, and what follows
/// it stays.
pub proof fn law_opening_time_is_replaced(time: Seq<char>, rest: Seq<char>)
    requires
        is_time(time),
    ensures
        unstamped("Current time: "@ + time + rest) == "Current time: <TIMESTAMP>"@ + rest,
{
    reveal_strlit("Current time: ");
    let label = "Current time: "@;
    let body = label + time + rest;
    assert(label =~= body.take(14));
    assert(body.skip(14) =~= time + rest);
    assert forall|i: int| 0 <= i < 20 implies super::normalize::fits_time(
        i,
        #[trigger] body.skip(14)[i],
    ) by {
        assert(body.skip(14)[i] == time[i]);
    }
    assert(is_stamped(body));
    assert(body.skip(34) =~= rest);
}

/// A message that does not open with the label stays as it is.
pub proof fn law_other_messages_keep_their_times(body: Seq<char>)
    requires
        !"Current time: "@.is_prefix_of(body),
    ensures
        unstamped(body) == body,
{
}

proof fn lemma_absent(s: Seq<char>, pat: Seq<char>)
    requires
        pat.len() > 0,
    ensures
        first_of(s, pat) is None <==> !contains_text(s, pat),
{
    lemma_find_from(s, pat, 0);
    match first_of(s, pat) {
        Some(i) => {
            assert(occurs_at(s, pat, i));
        },
        None => {
            if contains_text(s, pat) {
                let j = choose|j: int| occurs_at(s, pat, j);
                assert(0 <= j);
            }
        },
    }
}

/// A message that lists no workers is not put in order.
pub proof fn law_messages_without_workers_stay(m: Seq<char>)
    requires
        !contains_text(m, "AVAILABLE WORKERS:"@),
        !contains_text(m, "Valid worker names: "@),
    ensures
        workers_in_order(m) == Ok::<Seq<char>, NormalizationDefect>(m),
{
    reveal_strlit("AVAILABLE WORKERS:");
    reveal_strlit("Valid worker names: ");
    lemma_absent(m, "AVAILABLE WORKERS:"@);
    lemma_absent(m, "Valid worker names: "@);
}

/// The names listed as valid come in order, each as often as it was there, and
/// what stands around them stays.
pub proof fn law_valid_names_are_put_in_order(
    before: Seq<char>,
    names: Seq<char>,
    after: Seq<char>,
    ordered: Seq<Seq<char>>,
)
    requires
        forall|i: int| 0 <= i < before.len() ==> before[i] != 'V',
        forall|i: int| 0 <= i < names.len() ==> names[i] != '\n',
        !contains_text(
            before + "Valid worker names: "@ + names + "\n"@ + after,
            "AVAILABLE WORKERS:"@,
        ),
        is_sorting_of(ordered, split_at_each(names, ", "@)),
    ensures
        workers_in_order(before + "Valid worker names: "@ + names + "\n"@ + after) == Ok::<
            Seq<char>,
            NormalizationDefect,
        >(before + "Valid worker names: "@ + joined(ordered, ", "@) + "\n"@ + after),
{
    reveal_strlit("AVAILABLE WORKERS:");
    reveal_strlit("Valid worker names: ");
    reveal_strlit("\n");
    let label = "Valid worker names: "@;
    let m = before + label + names + "\n"@ + after;
    lemma_absent(m, "AVAILABLE WORKERS:"@);
    lemma_find_from(m, label, 0);
    let at = before.len() as int;
    assert(m.subrange(at, at + 20) =~= label);
    assert(occurs_at(m, label, at));
    let i = first_of(m, label)->0;
    assert(m.subrange(i, i + 20)[0] == 'V');
    assert(m[i] == 'V');
    if i < at {
        assert(m[i] == before[i]);
    }
    assert(i == at);
    let start = at + 20;
    let tail = m.skip(start);
    assert(tail =~= names + "\n"@ + after);
    lemma_find_from(tail, "\n"@, 0);
    let n = names.len() as int;
    assert(tail.subrange(n, n + 1) =~= "\n"@);
    assert(occurs_at(tail, "\n"@, n));
    let k = first_of(tail, "\n"@)->0;
    assert(tail.subrange(k, k + 1)[0] == '\n');
    assert(tail[k] == '\n');
    if k < n {
        assert(tail[k] == names[k]);
    }
    assert(k == n);
    assert(m.subrange(start, start + n) =~= names);
    let parts = split_at_each(names, ", "@);
    let chosen = sorted(parts);
    assert(is_sorting_of(chosen, parts));
    lemma_sorting_unique(chosen, ordered);
    assert(m.take(start) =~= before + label);
    assert(m.skip(start + n) =~= "\n"@ + after);
    let result = span_sorted(m, start, start + n, ", "@);
    assert(result =~= before + label + joined(ordered, ", "@) + "\n"@ + after);
}

// ---------------------------------------------------------------------------
// Defects
// ---------------------------------------------------------------------------

proof fn lemma_none_occurs(s: Seq<char>, pat: Seq<char>)
    requires
        pat.len() > 0,
    ensures
        occurrences(s, pat) == 0 <==> !contains_text(s, pat),
{
    lemma_find_from(s, pat, 0);
    lemma_absent(s, pat);
}

proof fn lemma_no_malformed(bodies: Seq<Seq<char>>, i: int)
    requires
        0 <= i <= bodies.len(),
        first_malformed(bodies, i) is None,
    ensures
        forall|j: int| i <= j < bodies.len() ==> !is_malformed(#[trigger] bodies[j]),
    decreases bodies.len() - i,
{
    if i < bodies.len() {
        lemma_no_malformed(bodies, i + 1);
    }
}

proof fn lemma_stamped_count(bodies: Seq<Seq<char>>, n: int)
    requires
        0 <= n <= bodies.len(),
    ensures
        stamped_count(bodies, n) <= n,
        stamped_count(bodies, n) == 0 ==> forall|j: int|
            0 <= j < n ==> !is_stamped(#[trigger] bodies[j]),
        stamped_count(bodies, n) == n ==> forall|j: int|
            0 <= j < n ==> is_stamped(#[trigger] bodies[j]),
    decreases n,
{
    if n > 0 {
        lemma_stamped_count(bodies, n - 1);
    }
}

proof fn lemma_no_user_defect(bodies: Seq<Seq<char>>, marker: Marker, i: int)
    requires
        0 <= i <= bodies.len(),
        user_defect(bodies, marker, i) is None,
        marker.name().len() > 0,
    ensures
        forall|j: int|
            i <= j < bodies.len() && j > 0 ==> !contains_text(#[trigger] bodies[j], marker.name()),
    decreases bodies.len() - i,
{
    if i < bodies.len() {
        lemma_none_occurs(bodies[i], marker.name());
        lemma_no_user_defect(bodies, marker, i + 1);
    }
}

proof fn lemma_no_marker_defect(envelope: RequestEnvelope, marker: Marker)
    requires
        marker_defect(envelope, marker) is None,
        marker.name().len() > 0,
    ensures
        ({
            let n = envelope.messages@.len() as int;
            let users = user_bodies(envelope.messages@, n);
            let others = assistant_bodies(envelope.messages@, n);
            &&& !contains_text(envelope.system@, marker.name())
            &&& forall|j: int|
                0 <= j < others.len() ==> !contains_text(#[trigger] others[j], marker.name())
            &&& forall|j: int|
                0 < j < users.len() ==> !contains_text(#[trigger] users[j], marker.name())
        }),
{
    let n = envelope.messages@.len() as int;
    let users = user_bodies(envelope.messages@, n);
    let others = assistant_bodies(envelope.messages@, n);
    lemma_none_occurs(envelope.system@, marker.name());
    assert forall|j: int| 0 <= j < others.len() implies !contains_text(
        #[trigger] others[j],
        marker.name(),
    ) by {
        lemma_none_occurs(others[j], marker.name());
        assert(!any_holds(others, marker));
    }
    lemma_no_user_defect(users, marker, 0);
}

/// A request without a defect: its user messages all open with a time or none
/// does, none of them opens with the label alone, and neither heading stands
/// in the preamble, in what the assistant said, or in a later user message.
pub proof fn law_clean_requests(envelope: RequestEnvelope)
    requires
        first_defect(envelope) is None,
    ensures
        ({
            let n = envelope.messages@.len() as int;
            let users = user_bodies(envelope.messages@, n);
            let others = assistant_bodies(envelope.messages@, n);
            &&& (forall|j: int| 0 <= j < users.len() ==> is_stamped(#[trigger] users[j])) || (
            forall|j: int|
                0 <= j < users.len() ==> !"Current time: "@.is_prefix_of(#[trigger] users[j]))
            &&& !contains_text(envelope.system@, "AVAILABLE WORKERS:"@)
            &&& !contains_text(envelope.system@, "Valid worker names: "@)
            &&& forall|j: int|
                0 <= j < others.len() ==> !contains_text(
                    #[trigger] others[j],
                    "AVAILABLE WORKERS:"@,
                ) && !contains_text(others[j], "Valid worker names: "@)
            &&& forall|j: int|
                0 < j < users.len() ==> !contains_text(
                    #[trigger] users[j],
                    "AVAILABLE WORKERS:"@,
                ) && !contains_text(users[j], "Valid worker names: "@)
        }),
{
    reveal_strlit("AVAILABLE WORKERS:");
    reveal_strlit("Valid worker names: ");
    let n = envelope.messages@.len() as int;
    let users = user_bodies(envelope.messages@, n);
    lemma_no_malformed(users, 0);
    lemma_stamped_count(users, users.len() as int);
    lemma_no_marker_defect(envelope, Marker::Roster);
    lemma_no_marker_defect(envelope, Marker::ValidNames);
    if stamped_count(users, users.len() as int) == 0 {
        assert forall|j: int| 0 <= j < users.len() implies !"Current time: "@.is_prefix_of(
            #[trigger] users[j],
        ) by {
            assert(!is_malformed(users[j]));
            assert(!is_stamped(users[j]));
        }
    }
}

// ---------------------------------------------------------------------------
// Documents
// ---------------------------------------------------------------------------

proof fn lemma_message_is_written(messages: Seq<Message>, n: int, i: int)
    requires
        0 <= i < n <= messages.len(),
        written_messages(messages, n) is Ok,
    ensures
        written_body(messages, i) is Ok,
        contains_text(
            written_messages(messages, n)->Ok_0,
            headed(i, role(messages[i]), written_body(messages, i)->Ok_0),
        ),
    decreases n,
{
    let all = written_messages(messages, n)->Ok_0;
    let before = written_messages(messages, n - 1)->Ok_0;
    let last = headed(n - 1, role(messages[n - 1]), written_body(messages, n - 1)->Ok_0);
    if i == n - 1 {
        assert(all =~= before + last + Seq::empty());
        lemma_holds_in(all, before, last, Seq::empty());
    } else {
        lemma_message_is_written(messages, n - 1, i);
        assert(all =~= Seq::empty() + before + last);
        lemma_holds_in(all, Seq::empty(), before, last);
        lemma_holds_what_a_part_holds(
            all,
            before,
            headed(i, role(messages[i]), written_body(messages, i)->Ok_0),
        );
    }
}

/// A document holds the preamble and the tools as they are, and each message
/// under its number and the word for the one who wrote it; what the assistant
/// said is written as it is, and a user's later words but for their time.
pub proof fn law_document_holds_the_request(
    envelope: RequestEnvelope,
    tools: Seq<char>,
    text: Seq<char>,
    i: int,
)
    requires
        document(envelope, tools) == Ok::<Seq<char>, NormalizationDefect>(text),
        0 <= i < envelope.messages@.len(),
    ensures
        contains_text(text, envelope.system@),
        contains_text(text, tools),
        envelope.messages@[i] matches Message::Assistant(said) ==> contains_text(
            text,
            "["@ + numeral(i as nat) + "] assistant ----\n"@ + said@,
        ),
        envelope.messages@[i] matches Message::User(said) ==> contains_text(
            text,
            "["@ + numeral(i as nat) + "] user ----\n"@,
        ) && ((exists|j: int| 0 <= j < i && (#[trigger] envelope.messages@[j]) is User)
            ==> contains_text(text, unstamped(said@))),
{
    let messages = written_messages(
        envelope.messages@,
        envelope.messages@.len() as int,
    )->Ok_0;
    let a = "================ SYSTEM ================\n"@;
    let b = "\n\n================ MESSAGES ================\n"@;
    let c = "================ TOOLS ================\n"@;
    assert(text =~= a + envelope.system@ + (b + messages + c + tools + "\n"@));
    lemma_holds_in(text, a, envelope.system@, b + messages + c + tools + "\n"@);
    let head = a + envelope.system@ + b;
    assert(text =~= head + messages + (c + tools + "\n"@));
    lemma_holds_in(text, head, messages, c + tools + "\n"@);
    let start = head + messages + c;
    assert(text =~= start + tools + "\n"@);
    lemma_holds_in(text, start, tools, "\n"@);
    lemma_message_is_written(envelope.messages@, envelope.messages@.len() as int, i);
    let message = envelope.messages@[i];
    let body = written_body(envelope.messages@, i)->Ok_0;
    let entry = headed(i, role(message), body);
    lemma_holds_what_a_part_holds(text, messages, entry);
    lemma_headed(i, message, body);
    match message {
        Message::Assistant(said) => {
            lemma_holds_what_a_part_holds(
                text,
                entry,
                "["@ + numeral(i as nat) + "] assistant ----\n"@ + said@,
            );
        },
        Message::User(said) => {
            lemma_holds_what_a_part_holds(
                text,
                entry,
                "["@ + numeral(i as nat) + "] user ----\n"@,
            );
            if exists|j: int| 0 <= j < i && (#[trigger] envelope.messages@[j]) is User {
                let j = choose|j: int| 0 <= j < i && (#[trigger] envelope.messages@[j]) is User;
                assert(!(envelope.messages@[j] is Assistant));
                assert(body == unstamped(said@));
                lemma_holds_what_a_part_holds(text, entry, body);
            }
        },
    }
}

proof fn lemma_headed(i: int, message: Message, body: Seq<char>)
    ensures
        contains_text(headed(i, role(message), body), body),
        message is Assistant ==> contains_text(
            headed(i, role(message), body),
            "["@ + numeral(i as nat) + "] assistant ----\n"@ + body,
        ),
        message is User ==> contains_text(
            headed(i, role(message), body),
            "["@ + numeral(i as nat) + "] user ----\n"@,
        ),
{
    reveal_strlit("---- [");
    reveal_strlit("[");
    reveal_strlit("] ");
    reveal_strlit("assistant");
    reveal_strlit("user");
    reveal_strlit(" ----\n");
    reveal_strlit("] assistant ----\n");
    reveal_strlit("] user ----\n");
    let lead = "---- ["@.take(5);
    assert("---- ["@ =~= lead + "["@);
    let entry = headed(i, role(message), body);
    let digits = numeral(i as nat);
    let before = "---- ["@ + digits + "] "@ + role(message) + " ----\n"@;
    assert(entry =~= before + body + "\n\n"@);
    lemma_holds_in(entry, before, body, "\n\n"@);
    match message {
        Message::Assistant(_) => {
            assert("] "@ + "assistant"@ + " ----\n"@ =~= "] assistant ----\n"@);
            let told = "["@ + digits + "] assistant ----\n"@ + body;
            assert(before =~= lead + ("["@ + digits + "] assistant ----\n"@));
            assert(entry =~= lead + told + "\n\n"@);
            lemma_holds_in(entry, lead, told, "\n\n"@);
        },
        Message::User(_) => {
            assert("] "@ + "user"@ + " ----\n"@ =~= "] user ----\n"@);
            let told = "["@ + digits + "] user ----\n"@;
            assert(before =~= lead + told);
            assert(entry =~= lead + told + (body + "\n\n"@));
            lemma_holds_in(entry, lead, told, body + "\n\n"@);
        },
    }
}

} // verus!
