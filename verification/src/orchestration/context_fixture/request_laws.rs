//! What goes out with a request: who has which tools, whose turn it is, and
//! what a preamble keeps.
use super::envelope::{composed_preamble, stored_category, stored_error};
use super::requests::{
    conversation, coordinator_order, worker_has_skills, worker_order, worker_prompt, RoundTexts,
    Spoken,
};
use super::scenario::{FailedResultFixture, PreambleFixture};
use super::worker::{
    appended, worker_preamble, WorkerFrameFixture, WorkerPreambleAppends, WorkerPreambleFixture,
};
use crate::orchestration::config::{coordinator_preamble, vector_store_context};
use crate::orchestration::prompt_laws::{
    law_task_is_in_the_prompt, law_worker_instructions_are_kept,
};
use crate::orchestration::templates::worker_filled;
use crate::orchestration::types::FailureCategory;
use crate::text::numerals::numeral;
use crate::text::parts::{lemma_holds_in, lemma_holds_what_a_part_holds};
use crate::text::search::contains_text;
use vstd::prelude::*;

verus! {

// ---------------------------------------------------------------------------
// Tools
// ---------------------------------------------------------------------------

/// What tells the names of tools apart.
proof fn lemma_tool_names()
    ensures
        "list_tools"@.len() == 10,
        "inspect_tool_params"@.len() == 19,
        "respond_directly"@.len() == 16,
        "create_plan"@.len() == 11,
        "request_clarification"@.len() == 21,
        "read_artifact"@.len() == 13 && "read_artifact"@[0] == 'r',
        "submit_result"@.len() == 13 && "submit_result"@[0] == 's',
        "list_prior_runs"@.len() == 15 && "list_prior_runs"@[0] == 'l',
        "load_skill"@.len() == 10 && "load_skill"@[1] == 'o' && "list_tools"@[1] == 'i',
        "read_skill_file"@.len() == 15 && "read_skill_file"@[0] == 'r',
{
    reveal_strlit("list_tools");
    reveal_strlit("inspect_tool_params");
    reveal_strlit("respond_directly");
    reveal_strlit("create_plan");
    reveal_strlit("request_clarification");
    reveal_strlit("read_artifact");
    reveal_strlit("submit_result");
    reveal_strlit("list_prior_runs");
    reveal_strlit("load_skill");
    reveal_strlit("read_skill_file");
}

proof fn lemma_in_either(a: Seq<Seq<char>>, b: Seq<Seq<char>>, x: Seq<char>)
    ensures
        (a + b).contains(x) <==> a.contains(x) || b.contains(x),
{
    let all = a + b;
    if a.contains(x) {
        let i = choose|i: int| 0 <= i < a.len() && a[i] == x;
        assert(all[i] == x);
    }
    if b.contains(x) {
        let i = choose|i: int| 0 <= i < b.len() && b[i] == x;
        assert(all[a.len() + i] == x);
    }
    if all.contains(x) {
        let i = choose|i: int| 0 <= i < all.len() && all[i] == x;
        if i < a.len() {
            assert(a[i] == x);
        } else {
            assert(b[i - a.len()] == x);
        }
    }
}

/// Whether a coordinator is to have a tool.
pub open spec fn coordinator_has(fixture: PreambleFixture, name: Seq<char>) -> bool {
    ||| name == "respond_directly"@
    ||| name == "create_plan"@
    ||| name == "request_clarification"@
    ||| name == "read_artifact"@
    ||| (name == "list_tools"@ || name == "inspect_tool_params"@) && fixture.tools.recon is Included
    ||| name == "list_prior_runs"@ && fixture.tools.history is Included
    ||| (name == "load_skill"@ || name == "read_skill_file"@) && fixture.skill_catalog is Some
}

/// A coordinator always has its routing tools and the tool that reads
/// artifacts, and each of the others exactly where it is wired.
pub proof fn law_coordinator_tools(fixture: PreambleFixture, name: Seq<char>)
    ensures
        coordinator_order(fixture).contains(name) <==> coordinator_has(fixture, name),
{
    let recon = if fixture.tools.recon is Included {
        seq!["list_tools"@, "inspect_tool_params"@]
    } else {
        Seq::empty()
    };
    let history = if fixture.tools.history is Included {
        seq!["list_prior_runs"@]
    } else {
        Seq::empty()
    };
    let skills = if fixture.skill_catalog is Some {
        seq!["load_skill"@, "read_skill_file"@]
    } else {
        Seq::empty()
    };
    let routing = seq!["respond_directly"@, "create_plan"@, "request_clarification"@];
    let artifacts = seq!["read_artifact"@];
    lemma_in_either(recon, routing, name);
    lemma_in_either(recon + routing, artifacts, name);
    lemma_in_either(recon + routing + artifacts, history, name);
    lemma_in_either(recon + routing + artifacts + history, skills, name);
    lemma_few(recon, "list_tools"@, "inspect_tool_params"@, name);
    lemma_few(skills, "load_skill"@, "read_skill_file"@, name);
    lemma_few(history, "list_prior_runs"@, "list_prior_runs"@, name);
    lemma_few(artifacts, "read_artifact"@, "read_artifact"@, name);
    assert(routing.contains(name) <==> name == routing[0] || name == routing[1] || name
        == routing[2]) by {
        if routing.contains(name) {
            let i = choose|i: int| 0 <= i < routing.len() && routing[i] == name;
            assert(i == 0 || i == 1 || i == 2);
        }
    }
}

/// A list of none, of one or of two names.
proof fn lemma_few(list: Seq<Seq<char>>, a: Seq<char>, b: Seq<char>, x: Seq<char>)
    requires
        list.len() == 0 || list == seq![a] || list == seq![a, b],
        list == seq![a] ==> a == b,
    ensures
        list.contains(x) <==> list.len() > 0 && (x == a || x == b),
{
    if list.len() > 0 {
        assert(list[0] == a);
        assert(list[list.len() - 1] == b);
        if list.contains(x) {
            let i = choose|i: int| 0 <= i < list.len() && list[i] == x;
            assert(i == 0 || i == 1);
        }
    }
}

/// A worker reads artifacts and submits its result, and has the tools of
/// skills exactly where it has skills; it never has a routing tool.
pub proof fn law_worker_tools(fixture: WorkerPreambleFixture)
    ensures
        worker_order(fixture).contains("read_artifact"@),
        worker_order(fixture).contains("submit_result"@),
        worker_order(fixture).contains("load_skill"@) <==> worker_has_skills(fixture),
        worker_order(fixture).contains("read_skill_file"@) <==> worker_has_skills(fixture),
        !worker_order(fixture).contains("create_plan"@),
        !worker_order(fixture).contains("respond_directly"@),
        !worker_order(fixture).contains("request_clarification"@),
{
    lemma_tool_names();
    let own = seq!["read_artifact"@, "submit_result"@];
    let skills = if worker_has_skills(fixture) {
        seq!["load_skill"@, "read_skill_file"@]
    } else {
        Seq::empty()
    };
    assert(worker_order(fixture) == own + skills);
    assert forall|x: Seq<char>| #[trigger] worker_order(fixture).contains(x) <==> x
        == "read_artifact"@ || x == "submit_result"@ || (worker_has_skills(fixture) && (x
        == "load_skill"@ || x == "read_skill_file"@)) by {
        lemma_in_either(own, skills, x);
        lemma_few(own, "read_artifact"@, "submit_result"@, x);
        lemma_few(skills, "load_skill"@, "read_skill_file"@, x);
    }
}

/// Exactly a worker with a catalog of skills has skills.
pub proof fn law_skills_come_with_a_catalog(fixture: WorkerPreambleFixture)
    ensures
        worker_has_skills(fixture) <==> match fixture {
            WorkerPreambleFixture::Role { role_preamble, vector_stores, appends } => {
                appends.skill_catalog is Some
            },
            WorkerPreambleFixture::Generic { custom_prompt, appends } => {
                appends.skill_catalog is Some
            },
        },
{
}

// ---------------------------------------------------------------------------
// Conversations
// ---------------------------------------------------------------------------

/// A conversation opens with the user's words; behind them stand, round by
/// round, the coordinator's decision and the prompt that follows it.
pub proof fn law_turns_alternate(opening: Seq<char>, rounds: Seq<RoundTexts>, n: int, k: int)
    requires
        0 <= k < n <= rounds.len(),
    ensures
        conversation(opening, rounds, n).len() == 2 * n + 1,
        conversation(opening, rounds, n)[0] == Spoken::User(opening),
        conversation(opening, rounds, n)[2 * k + 1] == Spoken::Assistant(rounds[k].decision@),
        conversation(opening, rounds, n)[2 * k + 2] == Spoken::User(rounds[k].follow_up@),
    decreases n,
{
    let before = conversation(opening, rounds, n - 1);
    if n == 1 {
        assert(before == seq![Spoken::User(opening)]);
    } else if k == n - 1 {
        law_turns_alternate(opening, rounds, n - 1, n - 2);
    } else {
        law_turns_alternate(opening, rounds, n - 1, k);
    }
}

// ---------------------------------------------------------------------------
// Preambles and prompts
// ---------------------------------------------------------------------------

/// A worker's preamble keeps its instructions, what it is told of its
/// knowledge bases, and its skills.
pub proof fn law_worker_preamble_keeps_all(fixture: WorkerPreambleFixture)
    ensures
        match fixture {
            WorkerPreambleFixture::Role { role_preamble, vector_stores, appends } => {
                &&& contains_text(worker_preamble(fixture), role_preamble@)
                &&& contains_text(
                    worker_preamble(fixture),
                    vector_store_context(vector_stores@),
                )
                &&& appends.skill_catalog matches Some(catalog) ==> contains_text(
                    worker_preamble(fixture),
                    catalog@,
                )
            },
            WorkerPreambleFixture::Generic { custom_prompt, appends } => {
                &&& custom_prompt matches Some(prompt) ==> contains_text(
                    worker_preamble(fixture),
                    prompt@,
                )
                &&& appends.skill_catalog matches Some(catalog) ==> contains_text(
                    worker_preamble(fixture),
                    catalog@,
                )
            },
        },
{
    let text = worker_preamble(fixture);
    match fixture {
        WorkerPreambleFixture::Role { role_preamble, vector_stores, appends } => {
            let (a, b, c) = (
                worker_filled(role_preamble@),
                vector_store_context(vector_stores@),
                appended(appends),
            );
            law_worker_instructions_are_kept(role_preamble@);
            lemma_appended(appends);
            assert(text =~= Seq::empty() + a + (b + c));
            lemma_holds_in(text, Seq::empty(), a, b + c);
            lemma_holds_what_a_part_holds(text, a, role_preamble@);
            lemma_holds_in(text, a, b, c);
            assert(text =~= (a + b) + c + Seq::empty());
            lemma_holds_in(text, a + b, c, Seq::empty());
            if appends.skill_catalog is Some {
                lemma_holds_what_a_part_holds(text, c, appends.skill_catalog->0@);
            }
        },
        WorkerPreambleFixture::Generic { custom_prompt, appends } => {
            let c = appended(appends);
            lemma_appended(appends);
            let a = text.take(text.len() - c.len());
            assert(text =~= a + c + Seq::empty());
            lemma_holds_in(text, a, c, Seq::empty());
            if appends.skill_catalog is Some {
                lemma_holds_what_a_part_holds(text, c, appends.skill_catalog->0@);
            }
            match custom_prompt {
                Some(prompt) => {
                    law_worker_instructions_are_kept(prompt@);
                    assert(a =~= worker_filled(prompt@));
                    assert(text =~= Seq::empty() + a + c);
                    lemma_holds_in(text, Seq::empty(), a, c);
                    lemma_holds_what_a_part_holds(text, a, prompt@);
                },
                None => {},
            }
        },
    }
}

proof fn lemma_appended(appends: WorkerPreambleAppends)
    ensures
        appends.skill_catalog matches Some(catalog) ==> contains_text(
            appended(appends),
            catalog@,
        ),
{
    match appends.skill_catalog {
        Some(catalog) => {
            let all = appended(appends);
            let before = all.take(all.len() - catalog@.len());
            assert(all =~= before + catalog@ + Seq::empty());
            lemma_holds_in(all, before, catalog@, Seq::empty());
        },
        None => {},
    }
}

/// A coordinator's preamble keeps its skills, what it is told of its knowledge
/// bases and, where there are earlier runs, what is told of them; without them
/// it tells of none.
pub proof fn law_coordinator_preamble_keeps_all(fixture: PreambleFixture, session: Seq<char>)
    ensures
        fixture.skill_catalog matches Some(catalog) ==> contains_text(
            composed_preamble(fixture, session),
            catalog@,
        ),
        contains_text(
            composed_preamble(fixture, session),
            vector_store_context(fixture.vector_stores@),
        ),
        fixture.session_history is Some ==> contains_text(
            composed_preamble(fixture, session),
            session,
        ),
        fixture.session_history is None ==> forall|other: Seq<char>| #[trigger]
            composed_preamble(fixture, other) == composed_preamble(fixture, session),
{
    let text = composed_preamble(fixture, session);
    let base = coordinator_preamble(
        fixture.playbook@,
        fixture.tools.recon is Included,
        fixture.tools.history is Included,
        true,
    );
    let skills = match fixture.skill_catalog {
        Some(catalog) => catalog@,
        None => Seq::empty(),
    };
    let history = match fixture.session_history {
        Some(_) => "\n"@ + session,
        None => Seq::empty(),
    };
    let stores = vector_store_context(fixture.vector_stores@);
    assert(text =~= base + skills + (stores + history));
    lemma_holds_in(text, base, skills, stores + history);
    assert(text =~= (base + skills) + stores + history);
    lemma_holds_in(text, base + skills, stores, history);
    if fixture.session_history is Some {
        let before = base + skills + stores + "\n"@;
        assert(text =~= before + session + Seq::empty());
        lemma_holds_in(text, before, session, Seq::empty());
    }
}

/// A worker is asked for its task, whatever prior work stands before it.
pub proof fn law_worker_is_asked_for_its_task(frame: WorkerFrameFixture, context: Seq<char>)
    ensures
        contains_text(worker_prompt(frame, context), frame.asked()),
{
    law_task_is_in_the_prompt(
        super::requests::context_slot(frame, context),
        frame.asked(),
    );
}

/// A soft failure is stored as one, with its summary and the file of a spilled
/// result; a hard one with its own error and category.
pub proof fn law_failures_are_stored_as_reported(report: FailedResultFixture)
    ensures
        match report {
            FailedResultFixture::Hard { error, category } => {
                &&& stored_error(report) == error@
                &&& stored_category(report) == category
            },
            FailedResultFixture::Soft { claim, artifact } => {
                &&& stored_category(report) == FailureCategory::SoftFailure
                &&& claim.summary_text().is_prefix_of(stored_error(report))
                &&& artifact matches Some(file) ==> contains_text(stored_error(report), file.file())
            },
        },
{
    match report {
        FailedResultFixture::Hard { error, category } => {},
        FailedResultFixture::Soft { claim, artifact } => {
            let text = stored_error(report);
            let summary = claim.summary_text();
            assert(summary =~= text.take(summary.len() as int));
            match artifact {
                Some(file) => {
                    let before = summary + "\n\n"@ + "[Full result ("@ + numeral(
                        file.chars() as nat,
                    ) + " chars) saved to artifact: "@;
                    assert(text =~= before + file.file() + "]"@);
                    lemma_holds_in(text, before, file.file(), "]"@);
                },
                None => {},
            }
        },
    }
}

} // verus!
