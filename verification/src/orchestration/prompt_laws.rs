//! What prompts and bounds keep: the user's words, the task, and the point
//! where a bound begins to bite.
use super::bounding::{cut_to_bytes, cut_to_chars, duration_promotes, size_promotes, TruncateMarker};
use super::config::{
    guidance_told, store_entries, store_entry, tools_told, vector_store_context, VectorStoreConfig,
    ARTIFACT_TOOL, HISTORY_TOOLS,
};
use super::templates::{
    coordinator_filled, task_filled, worker_filled, CONTEXT, ORCHESTRATION_SYSTEM_PROMPT,
    ORCHESTRATOR_PREAMBLE_TEMPLATE, RECON_GUIDANCE, TOOLS_SECTION, WORKER_PREAMBLE_TEMPLATE,
    WORKER_SYSTEM_PROMPT, WORKER_TASK_TEMPLATE,
};
use crate::text::parts::{
    law_one_place_is_filled, law_replacing_joins_the_rest, lemma_holds_in,
    lemma_holds_what_a_part_holds, lemma_replacing_keeps_the_start,
};
use crate::text::search::{contains_text, first_of, lemma_find_from, occurs_at, replaced};
use crate::text::{byte_len, byte_prefix, lemma_chars_within_greatest};
use vstd::prelude::*;

verus! {

// ---------------------------------------------------------------------------
// Bounds
// ---------------------------------------------------------------------------

/// An output is promoted once it is larger than a threshold above zero, and
/// not at the threshold.
pub proof fn law_size_is_promoted_above_the_threshold(threshold: usize, bytes: nat)
    requires
        threshold > 0,
    ensures
        !size_promotes(threshold, threshold as nat),
        size_promotes(threshold, (threshold + 1) as nat),
        size_promotes(threshold, bytes) ==> size_promotes(threshold, bytes + 1),
{
}

/// A call is promoted once it took longer than a threshold above zero, one
/// millisecond being a million nanoseconds, and not at the threshold.
pub proof fn law_duration_is_promoted_above_the_threshold(threshold_ms: u64, nanos: u128)
    requires
        threshold_ms > 0,
        nanos as int == threshold_ms as int * 1_000_000,
    ensures
        !duration_promotes(threshold_ms, nanos),
        duration_promotes(threshold_ms, (nanos + 1) as u128),
{
}

/// A text cut to a width is its own beginning with the marker behind it, and
/// one that fits is left as it is; what is kept is as wide as it can be.
pub proof fn law_cut_keeps_the_beginning(text: Seq<char>, max: nat, marker: TruncateMarker)
    ensures
        text.len() <= max ==> cut_to_chars(text, max, marker) == text,
        text.len() > max ==> cut_to_chars(text, max, marker) == text.take(max as int) + (
        match marker {
            TruncateMarker::Unmarked => Seq::empty(),
            TruncateMarker::EllipsisChar => "…"@,
            TruncateMarker::Dots => "..."@,
        }),
        byte_len(text) > max ==> exists|kept: Seq<char>|
            {
                &&& #[trigger] kept.is_prefix_of(text)
                &&& kept.len() < text.len()
                &&& byte_len(kept) <= max < byte_len(text.take(kept.len() as int + 1))
                &&& cut_to_bytes(text, max, marker) == kept + (match marker {
                    TruncateMarker::Unmarked => Seq::empty(),
                    TruncateMarker::EllipsisChar => "…"@,
                    TruncateMarker::Dots => "..."@,
                })
            },
{
    lemma_chars_within_greatest(text, max);
    if byte_len(text) > max {
        let kept = byte_prefix(text, max);
        assert(kept =~= text.take(kept.len() as int));
        assert(kept.is_prefix_of(text));
    }
}

// ---------------------------------------------------------------------------
// Prompts
// ---------------------------------------------------------------------------

proof fn lemma_task_template()
    ensures
        WORKER_TASK_TEMPLATE@ == Seq::empty() + "%%CONTEXT%%"@ + ("YOUR TASK\n\n"@
            + "%%YOUR_TASK%%"@ + "\n"@),
        "%%CONTEXT%%"@.len() == 11,
        "%%YOUR_TASK%%"@.len() == 13,
        "%%YOUR_TASK%%"@[0] == '%',
        !contains_text("YOUR TASK\n\n"@ + "%%YOUR_TASK%%"@ + "\n"@, "%%CONTEXT%%"@),
        !contains_text("\n"@, "%%YOUR_TASK%%"@),
        forall|i: int| 0 <= i < "YOUR TASK\n\n"@.len() ==> "YOUR TASK\n\n"@[i] != '%',
{
    reveal_strlit("%%CONTEXT%%YOUR TASK\n\n%%YOUR_TASK%%\n");
    reveal_strlit("%%CONTEXT%%");
    reveal_strlit("YOUR TASK\n\n");
    reveal_strlit("%%YOUR_TASK%%");
    reveal_strlit("\n");
    let rest = "YOUR TASK\n\n"@ + "%%YOUR_TASK%%"@ + "\n"@;
    assert(WORKER_TASK_TEMPLATE@ =~= Seq::empty() + "%%CONTEXT%%"@ + rest);
    if contains_text(rest, "%%CONTEXT%%"@) {
        let i = choose|i: int| occurs_at(rest, "%%CONTEXT%%"@, i);
        assert(rest.subrange(i, i + 11)[2] == "%%CONTEXT%%"@[2]);
        assert(rest[i + 2] == 'C');
    }
    if contains_text("\n"@, "%%YOUR_TASK%%"@) {
        let i = choose|i: int| occurs_at("\n"@, "%%YOUR_TASK%%"@, i);
        assert(i + 13 <= 1);
    }
}

/// A worker's prompt is the context, then the task under its heading, and
/// nothing else, where the context has no percent sign that could be taken for
/// the task's place.
pub proof fn law_task_prompt(context: Seq<char>, task: Seq<char>)
    requires
        forall|i: int| 0 <= i < context.len() ==> context[i] != '%',
    ensures
        task_filled(context, task) == context + "YOUR TASK\n\n"@ + task + "\n"@,
{
    lemma_task_template();
    let rest = "YOUR TASK\n\n"@ + "%%YOUR_TASK%%"@ + "\n"@;
    law_one_place_is_filled(Seq::empty(), "%%CONTEXT%%"@, rest, context);
    let framed = replaced(WORKER_TASK_TEMPLATE@, CONTEXT@, context);
    let before = context + "YOUR TASK\n\n"@;
    assert(framed =~= before + "%%YOUR_TASK%%"@ + "\n"@);
    assert forall|i: int| 0 <= i < before.len() implies before[i] != "%%YOUR_TASK%%"@[0] by {
        if i < context.len() {
            assert(before[i] == context[i]);
        } else {
            assert(before[i] == "YOUR TASK\n\n"@[i - context.len()]);
        }
    }
    law_one_place_is_filled(before, "%%YOUR_TASK%%"@, "\n"@, task);
}

/// Whatever the context holds, the task stands in the prompt.
pub proof fn law_task_is_in_the_prompt(context: Seq<char>, task: Seq<char>)
    ensures
        contains_text(task_filled(context, task), task),
{
    lemma_task_template();
    let rest = "YOUR TASK\n\n"@ + "%%YOUR_TASK%%"@ + "\n"@;
    law_one_place_is_filled(Seq::empty(), "%%CONTEXT%%"@, rest, context);
    let framed = replaced(WORKER_TASK_TEMPLATE@, CONTEXT@, context);
    let before = context + "YOUR TASK\n\n"@;
    assert(framed =~= before + "%%YOUR_TASK%%"@ + "\n"@);
    lemma_holds_in(framed, before, "%%YOUR_TASK%%"@, "\n"@);
    law_replacing_joins_the_rest(framed, "%%YOUR_TASK%%"@, task);
}

/// The coordinator is told of the tools for earlier runs exactly where it has
/// them, and of those for looking at tools exactly where it has those.
pub proof fn law_tools_are_told(recon: bool, history: bool)
    ensures
        contains_text(tools_told(recon, history), "`read_artifact`"@),
        history ==> contains_text(tools_told(recon, history), "`list_prior_runs`"@),
        recon ==> contains_text(tools_told(recon, history), "`inspect_tool_params`"@),
        recon ==> tools_told(recon, history).len() > tools_told(false, history).len(),
        history ==> tools_told(recon, history).len() > tools_told(recon, false).len(),
        guidance_told(false).is_suffix_of(guidance_told(true)),
{
    let opening = tools_opening(recon);
    let ending = ". Call exactly one routing tool per query."@;
    let artifact = if history {
        HISTORY_TOOLS@
    } else {
        ARTIFACT_TOOL@
    };
    let text = tools_told(recon, history);
    assert(text =~= opening + artifact + ending);
    lemma_holds_in(text, opening, artifact, ending);
    lemma_tools_words();
    lemma_holds_what_a_part_holds(text, artifact, "`read_artifact`"@);
    if history {
        lemma_holds_what_a_part_holds(text, artifact, "`list_prior_runs`"@);
    }
    if recon {
        assert(text =~= Seq::empty() + opening + (artifact + ending));
        lemma_holds_in(text, Seq::empty(), opening, artifact + ending);
        lemma_holds_what_a_part_holds(text, opening, "`inspect_tool_params`"@);
    }
    let (short, long) = (guidance_told(false), guidance_told(true));
    assert(short =~= long.subrange(long.len() - short.len(), long.len() as int));
}

spec fn tools_opening(recon: bool) -> Seq<char> {
    if recon {
        "You have three **routing tools** (`respond_directly`, `create_plan`, `request_clarification`), two **reconnaissance tools** (`list_tools`, `inspect_tool_params`), and "@
    } else {
        "You have three **routing tools** (`respond_directly`, `create_plan`, `request_clarification`) and "@
    }
}

proof fn lemma_tools_words()
    ensures
        contains_text(HISTORY_TOOLS@, "`read_artifact`"@),
        contains_text(ARTIFACT_TOOL@, "`read_artifact`"@),
        contains_text(HISTORY_TOOLS@, "`list_prior_runs`"@),
        contains_text(tools_opening(true), "`inspect_tool_params`"@),
        tools_opening(true).len() > tools_opening(false).len(),
        HISTORY_TOOLS@.len() > ARTIFACT_TOOL@.len(),
{
    lemma_history_words();
    reveal_strlit("`inspect_tool_params`");
    reveal_strlit(
        "You have three **routing tools** (`respond_directly`, `create_plan`, `request_clarification`), two **reconnaissance tools** (`list_tools`, `inspect_tool_params`), and ",
    );
    reveal_strlit(
        "You have three **routing tools** (`respond_directly`, `create_plan`, `request_clarification`) and ",
    );
    let opening = tools_opening(true);
    let word = "`inspect_tool_params`"@;
    assert(opening.subrange(139, 160) =~= word);
    assert(occurs_at(opening, word, 139));
}

proof fn lemma_history_words()
    ensures
        contains_text(HISTORY_TOOLS@, "`read_artifact`"@),
        contains_text(ARTIFACT_TOOL@, "`read_artifact`"@),
        contains_text(HISTORY_TOOLS@, "`list_prior_runs`"@),
        HISTORY_TOOLS@.len() > ARTIFACT_TOOL@.len(),
{
    reveal_strlit("two **artifact/history tools** (`read_artifact`, `list_prior_runs`)");
    reveal_strlit("one **artifact tool** (`read_artifact`)");
    reveal_strlit("`read_artifact`");
    reveal_strlit("`list_prior_runs`");
    let read = "`read_artifact`"@;
    let list = "`list_prior_runs`"@;
    assert(HISTORY_TOOLS@.subrange(32, 47) =~= read);
    assert(occurs_at(HISTORY_TOOLS@, read, 32));
    assert(HISTORY_TOOLS@.subrange(49, 66) =~= list);
    assert(occurs_at(HISTORY_TOOLS@, list, 49));
    assert(ARTIFACT_TOOL@.subrange(23, 38) =~= read);
    assert(occurs_at(ARTIFACT_TOOL@, read, 23));
}

/// The user's own instructions stand in the coordinator's preamble, right
/// behind its opening, where they hold no percent sign that could be taken for
/// a place to fill in.
pub proof fn law_coordinator_instructions_are_kept(
    prompt: Seq<char>,
    tools_section: Seq<char>,
    recon_guidance: Seq<char>,
)
    requires
        forall|i: int| 0 <= i < prompt.len() ==> prompt[i] != '%',
    ensures
        ("# Orchestration Coordinator\n\nYou coordinate a team of workers. You plan and route; workers execute.\n\n"@ + prompt).is_prefix_of(
            coordinator_filled(prompt, tools_section, recon_guidance),
        ),
{
    reveal_strlit("%%ORCHESTRATION_SYSTEM_PROMPT%%");
    reveal_strlit("%%TOOLS_SECTION%%");
    reveal_strlit("%%RECON_GUIDANCE%%");
    let opening = "# Orchestration Coordinator\n\nYou coordinate a team of workers. You plan and route; workers execute.\n\n"@;
    lemma_coordinator_opening();
    let rest = ORCHESTRATOR_PREAMBLE_TEMPLATE@.skip((opening.len() + 31) as int);
    assert(ORCHESTRATOR_PREAMBLE_TEMPLATE@ =~= opening + ORCHESTRATION_SYSTEM_PROMPT@ + rest);
    lemma_first_place(opening, ORCHESTRATION_SYSTEM_PROMPT@, rest, prompt);
    let named = replaced(ORCHESTRATOR_PREAMBLE_TEMPLATE@, ORCHESTRATION_SYSTEM_PROMPT@, prompt);
    let head = opening + prompt;
    assert forall|i: int| 0 <= i < head.len() implies head[i] != '%' by {
        if i < opening.len() {
            assert(head[i] == opening[i]);
        } else {
            assert(head[i] == prompt[i - opening.len()]);
        }
    }
    lemma_replacing_keeps_the_start(named, head, TOOLS_SECTION@, tools_section);
    let tooled = replaced(named, TOOLS_SECTION@, tools_section);
    lemma_replacing_keeps_the_start(tooled, head, RECON_GUIDANCE@, recon_guidance);
}

/// Replacing a place fills the first one behind a text without its first
/// character.
proof fn lemma_first_place(before: Seq<char>, place: Seq<char>, after: Seq<char>, with: Seq<char>)
    requires
        place.len() > 0,
        forall|i: int| 0 <= i < before.len() ==> before[i] != place[0],
    ensures
        (before + with).is_prefix_of(replaced(before + place + after, place, with)),
{
    let text = before + place + after;
    lemma_find_from(text, place, 0);
    let at = before.len() as int;
    assert(text.subrange(at, at + place.len()) =~= place);
    assert(occurs_at(text, place, at));
    let i = first_of(text, place)->0;
    assert(text.subrange(i, i + place.len())[0] == place[0]);
    assert(text[i] == place[0]);
    if i < at {
        assert(text[i] == before[i]);
    }
    assert(i == at);
    assert(text.take(i) =~= before);
    let filled = replaced(text, place, with);
    assert(filled == before + with + replaced(text.skip(i + place.len()), place, with));
    assert(before + with =~= filled.take((before + with).len() as int));
}

proof fn lemma_coordinator_opening()
    ensures
        "# Orchestration Coordinator\n\nYou coordinate a team of workers. You plan and route; workers execute.\n\n"@.len() == 101,
        forall|i: int|
            0 <= i < 101 ==> #[trigger] "# Orchestration Coordinator\n\nYou coordinate a team of workers. You plan and route; workers execute.\n\n"@[i] != '%',
        ORCHESTRATION_SYSTEM_PROMPT@.len() == 31,
        ORCHESTRATOR_PREAMBLE_TEMPLATE@.len() >= 101 + 31,
        ORCHESTRATOR_PREAMBLE_TEMPLATE@.take(101) == "# Orchestration Coordinator\n\nYou coordinate a team of workers. You plan and route; workers execute.\n\n"@,
        ORCHESTRATOR_PREAMBLE_TEMPLATE@.subrange(101, 132) == ORCHESTRATION_SYSTEM_PROMPT@,
{
    reveal_strlit("# Orchestration Coordinator\n\nYou coordinate a team of workers. You plan and route; workers execute.\n\n");
    reveal_strlit("%%ORCHESTRATION_SYSTEM_PROMPT%%");
    reveal_strlit(
        "# Orchestration Coordinator\n\nYou coordinate a team of workers. You plan and route; workers execute.\n\n%%ORCHESTRATION_SYSTEM_PROMPT%%\n\n## Tools\n\n%%TOOLS_SECTION%%\n\n%%RECON_GUIDANCE%%\n\n## Rules\n\n1. **Answer directly** with `respond_directly` where no worker is needed.\n2. **Plan** with `create_plan` where work is needed; give each task to one worker.\n3. **Ask** with `request_clarification` where the request cannot be planned as it stands.\n4. **Keep tasks small**: one task, one result.\n5. **Say what depends on what**: a task sees the results of the tasks it depends on.\n6. **Resolve tool gaps pragmatically**: If a user requests an operation with no matching tool, create a plan using the available tools and note the gap in `planning_summary`. Do NOT deliberate at length about missing capabilities — route what you can, report what you cannot.\n7. **Report** what the workers found, not how they were asked.\n",
    );
    assert(ORCHESTRATOR_PREAMBLE_TEMPLATE@.take(101) =~= "# Orchestration Coordinator\n\nYou coordinate a team of workers. You plan and route; workers execute.\n\n"@);
    assert(ORCHESTRATOR_PREAMBLE_TEMPLATE@.subrange(101, 132) =~= ORCHESTRATION_SYSTEM_PROMPT@);
}

/// The user's own instructions stand in a worker's preamble, between its
/// opening and its rules.
pub proof fn law_worker_instructions_are_kept(prompt: Seq<char>)
    ensures
        contains_text(worker_filled(prompt), prompt),
{
    lemma_worker_place();
    reveal_strlit("%%WORKER_SYSTEM_PROMPT%%");
    law_replacing_joins_the_rest(WORKER_PREAMBLE_TEMPLATE@, WORKER_SYSTEM_PROMPT@, prompt);
}

proof fn lemma_worker_place()
    ensures
        contains_text(WORKER_PREAMBLE_TEMPLATE@, WORKER_SYSTEM_PROMPT@),
{
    reveal_strlit("%%WORKER_SYSTEM_PROMPT%%");
    reveal_strlit(
        "# Worker Agent\n\nYou carry out one task of a plan and report its result.\n\n## Instructions\n\n%%WORKER_SYSTEM_PROMPT%%\n\n## Rules\n\n1. Use your tools; do not guess at what a tool would say.\n2. Stay with your task; other tasks have other workers.\n3. Finish with `submit_result`.\n",
    );
    assert(WORKER_PREAMBLE_TEMPLATE@.subrange(90, 114) =~= WORKER_SYSTEM_PROMPT@);
    assert(occurs_at(WORKER_PREAMBLE_TEMPLATE@, WORKER_SYSTEM_PROMPT@, 90));
}

// ---------------------------------------------------------------------------
// Knowledge bases
// ---------------------------------------------------------------------------

proof fn lemma_entries(stores: Seq<VectorStoreConfig>, n: int, i: int)
    requires
        0 <= i < n <= stores.len(),
    ensures
        contains_text(store_entries(stores, n), store_entry(stores[i])),
    decreases n,
{
    let before = store_entries(stores, n - 1);
    let last = store_entry(stores[n - 1]);
    let all = store_entries(stores, n);
    if i == n - 1 {
        assert(all =~= before + last + Seq::empty());
        lemma_holds_in(all, before, last, Seq::empty());
    } else {
        lemma_entries(stores, n - 1, i);
        assert(all =~= Seq::empty() + before + last);
        lemma_holds_in(all, Seq::empty(), before, last);
        lemma_holds_what_a_part_holds(all, before, store_entry(stores[i]));
    }
}

/// Every knowledge base is told, with its description and the name of the tool
/// that searches it; without any, nothing is told.
pub proof fn law_knowledge_bases_are_told(stores: Seq<VectorStoreConfig>, i: int)
    ensures
        stores.len() == 0 ==> vector_store_context(stores).len() == 0,
        0 <= i < stores.len() ==> {
            let text = vector_store_context(stores);
            &&& contains_text(text, "`vector_search_"@ + stores[i].name@ + "`"@)
            &&& stores[i].context_prefix matches Some(d) ==> contains_text(text, d@)
            &&& stores[i].context_prefix is None ==> contains_text(
                text,
                "No description provided"@,
            )
        },
{
    if 0 <= i < stores.len() {
        let text = vector_store_context(stores);
        let entries = store_entries(stores, stores.len() as int);
        let entry = store_entry(stores[i]);
        lemma_entries(stores, stores.len() as int, i);
        let head = "\n## Available Knowledge Bases\n\n"@
            + "You have access to the following knowledge bases for retrieval:\n\n"@;
        assert(text =~= head + entries + Seq::empty());
        lemma_holds_in(text, head, entries, Seq::empty());
        lemma_holds_what_a_part_holds(text, entries, entry);
        lemma_entry(stores[i]);
        let name = stores[i].name@;
        lemma_holds_what_a_part_holds(text, entry, "`vector_search_"@ + name + "`"@);
        match stores[i].context_prefix {
            Some(d) => {
                lemma_holds_what_a_part_holds(text, entry, d@);
            },
            None => {
                lemma_holds_what_a_part_holds(text, entry, "No description provided"@);
            },
        }
    }
}

proof fn lemma_entry(store: VectorStoreConfig)
    ensures
        contains_text(store_entry(store), "`vector_search_"@ + store.name@ + "`"@),
        contains_text(
            store_entry(store),
            match store.context_prefix {
                Some(d) => d@,
                None => "No description provided"@,
            },
        ),
{
    let entry = store_entry(store);
    let said = match store.context_prefix {
        Some(d) => d@,
        None => "No description provided"@,
    };
    let start = "- **"@ + store.name@ + "**: "@;
    let rest = "\n  Tool: `vector_search_"@ + store.name@ + "`\n\n"@;
    assert(entry =~= start + said + rest);
    lemma_holds_in(entry, start, said, rest);
    reveal_strlit("\n  Tool: `vector_search_");
    reveal_strlit("`vector_search_");
    reveal_strlit("`\n\n");
    reveal_strlit("`");
    let lead = "\n  Tool: `vector_search_"@.take(9);
    assert("\n  Tool: `vector_search_"@ =~= lead + "`vector_search_"@);
    let tail = "`\n\n"@.skip(1);
    assert("`\n\n"@ =~= "`"@ + tail);
    let tool = "`vector_search_"@ + store.name@ + "`"@;
    assert(entry =~= (start + said + lead) + tool + tail);
    lemma_holds_in(entry, start + said + lead, tool, tail);
}

} // verus!
