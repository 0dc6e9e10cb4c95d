//! What a coordinator's rendered turns and the records of failures tell.
use super::entry_laws::on_one_line;
use super::failure_history::{handle_text, FailureRecord};
use super::label::role_text;
use super::status_laws::category_word;
use super::turn::{assignment_names, CoordinatorTurn, PlanShape, RoutingRationale};
use crate::text::is_white_space;
use crate::text::numerals::{digit_value, numeral};
use crate::text::parts::{
    law_joined_holds_each_part, lemma_holds_in, lemma_holds_what_a_part_holds,
    lemma_opening_numerals, lemma_part_decides,
};
use crate::text::search::contains_text;
use crate::text::trim::{joined, lemma_line_end, line_end, lines, trimmed_end, trimmed_start};
use vstd::prelude::*;

verus! {

/// An answer and a question stand as they were given, and nothing else with
/// them.
pub proof fn law_words_stand_as_given(turn: CoordinatorTurn)
    ensures
        match turn {
            CoordinatorTurn::RespondDirectly { response } => turn.text() == response@,
            CoordinatorTurn::RequestClarification { question } => turn.text() == question@,
            CoordinatorTurn::CreatePlan { rationale, shape } => true,
        },
{
}

/// A plan's turn says that it is a plan, of how many tasks, for whom each of
/// them is, and why.
pub proof fn law_plan_is_told(rationale: RoutingRationale, shape: PlanShape, i: int)
    requires
        0 <= i < shape.roles().len(),
    ensures
        ({
            let text = (CoordinatorTurn::CreatePlan { rationale, shape }).text();
            &&& ("create_plan: "@ + numeral(shape.roles().len()) + " task"@).is_prefix_of(text)
            &&& contains_text(
                text,
                match shape.roles()[i] {
                    Some(name) => name,
                    None => "unassigned"@,
                },
            )
            &&& contains_text(text, "Rationale: "@ + rationale@)
        }),
{
    let roles = shape.roles();
    let text = (CoordinatorTurn::CreatePlan { rationale, shape }).text();
    reveal_strlit("task");
    reveal_strlit("tasks");
    reveal_strlit(" task");
    reveal_strlit(" ");
    reveal_strlit(". Rationale: ");
    reveal_strlit("Rationale: ");
    reveal_strlit(". ");
    let opening = "create_plan: "@ + numeral(roles.len()) + " task"@;
    let noun = if roles.len() == 1 {
        "task"@
    } else {
        "tasks"@
    };
    let ending = noun.skip(4);
    assert(" "@ + noun =~= " task"@ + ending);
    let names = joined(assignment_names(roles), ", "@);
    let head = opening + ending + " ("@;
    let why = "Rationale: "@ + rationale@;
    assert(". Rationale: "@ =~= ". "@ + "Rationale: "@);
    assert(text =~= head + names + (")"@ + ". "@ + why));
    assert(opening =~= text.take(opening.len() as int));
    lemma_holds_in(text, head, names, ")"@ + ". "@ + why);
    law_joined_holds_each_part(assignment_names(roles), ", "@, i);
    lemma_holds_what_a_part_holds(text, names, assignment_names(roles)[i]);
    assert(text =~= (head + names + ")"@ + ". "@) + why + Seq::empty());
    lemma_holds_in(text, head + names + ")"@ + ". "@, why, Seq::empty());
}

/// What follows the iteration in a record.
spec fn behind_iteration(r: FailureRecord) -> Seq<char> {
    ": \""@ + r.handle@ + "\""@ + (match role_text(r.worker) {
        Some(w) => " (worker: "@ + w + ")"@,
        None => Seq::empty(),
    }) + " - ["@ + r.category.name() + "] "@ + r.error.shown()
}

proof fn lemma_behind_iteration(r: FailureRecord)
    ensures
        r.text() == "- Iteration "@ + (numeral(r.iteration@ as nat) + behind_iteration(r))
            + Seq::empty(),
        behind_iteration(r).len() > 0,
        digit_value(behind_iteration(r)[0]) is None,
{
    reveal_strlit(": \"");
    let rest = behind_iteration(r);
    assert(r.text() =~= "- Iteration "@ + (numeral(r.iteration@ as nat) + rest) + Seq::empty());
    assert(rest[0] == ':');
}

/// A record begins with its iteration, so those of different iterations are
/// never alike.
pub proof fn law_iteration_is_told(a: FailureRecord, b: FailureRecord)
    requires
        a.text() == b.text(),
    ensures
        a.iteration@ == b.iteration@,
{
    lemma_behind_iteration(a);
    lemma_behind_iteration(b);
    let (m, n) = (a.iteration@ as nat, b.iteration@ as nat);
    lemma_part_decides(
        "- Iteration "@,
        numeral(m) + behind_iteration(a),
        numeral(n) + behind_iteration(b),
        Seq::empty(),
    );
    lemma_opening_numerals(m, n, behind_iteration(a), behind_iteration(b));
}

/// A record tells the task by its handle in quotes, its worker, and behind
/// them the kind of failure and the bounded error.
pub proof fn law_record_tells_the_failure(r: FailureRecord)
    ensures
        contains_text(r.text(), "\""@ + r.handle@ + "\""@),
        r.worker matches Some(role) ==> contains_text(r.text(), "(worker: "@ + role@ + ")"@),
        contains_text(
            r.text(),
            "["@ + category_word(r.category) + "] "@ + r.error.bounded_text(),
        ),
{
    let worker = match role_text(r.worker) {
        Some(w) => " (worker: "@ + w + ")"@,
        None => Seq::empty(),
    };
    let opening = "- Iteration "@ + numeral(r.iteration@ as nat) + ": "@;
    let quoted = "\""@ + r.handle@ + "\""@;
    reveal_strlit(": \"");
    reveal_strlit(": ");
    reveal_strlit("\"");
    reveal_strlit(" - [");
    reveal_strlit(" - ");
    reveal_strlit("[");
    reveal_strlit(" (worker: ");
    reveal_strlit("(worker: ");
    reveal_strlit(" ");
    assert(": \""@ =~= ": "@ + "\""@);
    assert(" - ["@ =~= " - "@ + "["@);
    let told = "["@ + category_word(r.category) + "] "@ + r.error.bounded_text();
    let after = r.error.shown().skip(r.error.bounded_text().len() as int);
    assert(r.error.shown() =~= r.error.bounded_text() + after);
    let text = r.text();
    assert(text =~= opening + quoted + (worker + " - "@ + told + after));
    lemma_holds_in(text, opening, quoted, worker + " - "@ + told + after);
    let start = opening + quoted + worker + " - "@;
    assert(text =~= start + told + after);
    lemma_holds_in(text, start, told, after);
    match r.worker {
        Some(role) => {
            let who = "(worker: "@ + role@ + ")"@;
            assert(" (worker: "@ =~= " "@ + "(worker: "@);
            assert(worker =~= " "@ + who);
            let rest = " - "@ + told + after;
            assert(text =~= (opening + quoted + " "@) + who + rest);
            lemma_holds_in(text, opening + quoted + " "@, who, rest);
        },
        None => {},
    }
}

/// A description on one line, with no white space at either end, is its own
/// handle where it has no more than 120 characters; a longer one is cut there
/// and marked.
pub proof fn law_short_description_is_its_handle(description: Seq<char>)
    requires
        on_one_line(description),
        !is_white_space(description[0]),
        !is_white_space(description.last()),
    ensures
        description.len() <= 120 ==> handle_text(description) == description,
        description.len() > 120 ==> handle_text(description) == description.take(120) + "..."@,
{
    assert(trimmed_start(description) == description);
    lemma_line_end(description);
    if line_end(description) < description.len() {
        assert(description[line_end(description) as int] != '\n');
    }
    assert(lines(description) =~= seq![description]);
    assert(trimmed_end(description) == description);
}

} // verus!
