//! What translating a span is for: each attribute is found again under its
//! OpenInference name, and nothing else is found there.
use crate::openinference_exporter::{
    all_translated, is_gen_ai, kind_of, last_text, member_text, message_attributes, message_key,
    message_part, messages_of, output_message, renamed, shows_turns, text_attribute, transformed,
    translated, turn_output, with_kind, without_gen_ai, Attribute, Kind, RowMember,
};
use crate::text::numerals::numeral;
use vstd::prelude::*;

verus! {

/// The keys of a span and the names that their values get.
pub open spec fn is_pair(from: Seq<char>, to: Seq<char>) -> bool {
    ||| from == "gen_ai.system"@ && to == "llm.system"@
    ||| from == "gen_ai.provider.name"@ && to == "llm.system"@
    ||| from == "gen_ai.request.model"@ && to == "llm.model_name"@
    ||| from == "gen_ai.usage.input_tokens"@ && to == "llm.token_count.prompt"@
    ||| from == "gen_ai.usage.output_tokens"@ && to == "llm.token_count.completion"@
    ||| from == "gen_ai.tool.name"@ && to == "tool.name"@
    ||| from == "gen_ai.tool.call.arguments"@ && to == "tool.parameters"@
    ||| from == "gen_ai.agent.name"@ && to == "agent.name"@
    ||| from == "gen_ai.agent.turn"@ && to == "agent.turn"@
    ||| from == "gen_ai.agent.max_turns"@ && to == "agent.max_turns"@
    ||| from == "gen_ai.turn.history_len"@ && to == "turn.history_len"@
    ||| from == "gen_ai.turn.tool_count"@ && to == "turn.tool_count"@
    ||| from == "gen_ai.turn.has_tool_calls"@ && to == "turn.has_tool_calls"@
}

/// The names that values get from a key of their own.
pub open spec fn is_target(name: Seq<char>) -> bool {
    ||| name == "llm.system"@
    ||| name == "llm.model_name"@
    ||| name == "llm.token_count.prompt"@
    ||| name == "llm.token_count.completion"@
    ||| name == "tool.name"@
    ||| name == "tool.parameters"@
    ||| name == "agent.name"@
    ||| name == "agent.turn"@
    ||| name == "agent.max_turns"@
    ||| name == "turn.history_len"@
    ||| name == "turn.tool_count"@
    ||| name == "turn.has_tool_calls"@
}

/// What tells the keys of a span apart.
proof fn lemma_keys()
    ensures
        "gen_ai.system"@.len() == 13,
        "gen_ai.provider.name"@.len() == 20 && "gen_ai.provider.name"@[7] == 'p',
        "gen_ai.request.model"@.len() == 20 && "gen_ai.request.model"@[7] == 'r',
        "gen_ai.usage.input_tokens"@.len() == 25,
        "gen_ai.usage.output_tokens"@.len() == 26 && "gen_ai.usage.output_tokens"@[8] == 's',
        "gen_ai.tool.name"@.len() == 16,
        "gen_ai.tool.call.arguments"@.len() == 26 && "gen_ai.tool.call.arguments"@[8] == 'o',
        "gen_ai.agent.name"@.len() == 17 && "gen_ai.agent.name"@[13] == 'n',
        "gen_ai.agent.turn"@.len() == 17 && "gen_ai.agent.turn"@[13] == 't',
        "gen_ai.agent.max_turns"@.len() == 22 && "gen_ai.agent.max_turns"@[7] == 'a',
        "gen_ai.turn.history_len"@.len() == 23 && "gen_ai.turn.history_len"@[8] == 'u',
        "gen_ai.turn.tool_count"@.len() == 22 && "gen_ai.turn.tool_count"@[7] == 't',
        "gen_ai.turn.has_tool_calls"@.len() == 26 && "gen_ai.turn.has_tool_calls"@[8] == 'u',
{
    reveal_strlit("gen_ai.system");
    reveal_strlit("gen_ai.provider.name");
    reveal_strlit("gen_ai.request.model");
    reveal_strlit("gen_ai.usage.input_tokens");
    reveal_strlit("gen_ai.usage.output_tokens");
    reveal_strlit("gen_ai.tool.name");
    reveal_strlit("gen_ai.tool.call.arguments");
    reveal_strlit("gen_ai.agent.name");
    reveal_strlit("gen_ai.agent.turn");
    reveal_strlit("gen_ai.agent.max_turns");
    reveal_strlit("gen_ai.turn.history_len");
    reveal_strlit("gen_ai.turn.tool_count");
    reveal_strlit("gen_ai.turn.has_tool_calls");
}

/// What tells the keys without a name of their own apart, from one another and
/// from the keys with one.
proof fn lemma_more_keys()
    ensures
        "gen_ai.tool.call.result"@.len() == 23 && "gen_ai.tool.call.result"@[8] == 'o',
        "gen_ai.turn.prompt"@.len() == 18,
        "gen_ai.input.messages"@.len() == 21 && "gen_ai.input.messages"@[7] == 'i',
        "gen_ai.output.messages"@.len() == 22 && "gen_ai.output.messages"@[7] == 'o',
        "gen_ai.turn.reasoning"@.len() == 21 && "gen_ai.turn.reasoning"@[7] == 't',
        "gen_ai.turn.response"@.len() == 20 && "gen_ai.turn.response"@[7] == 't',
{
    reveal_strlit("gen_ai.tool.call.result");
    reveal_strlit("gen_ai.turn.prompt");
    reveal_strlit("gen_ai.input.messages");
    reveal_strlit("gen_ai.output.messages");
    reveal_strlit("gen_ai.turn.reasoning");
    reveal_strlit("gen_ai.turn.response");
}

/// What tells the names apart from those of messages, inputs and outputs, and
/// from what is dropped.
proof fn lemma_targets(name: Seq<char>)
    requires
        is_target(name),
    ensures
        name.len() > 7,
        name[0] == 'l' ==> name[4] == 's' || name[4] == 'm' || name[4] == 't',
        name[0] == 'l' || name[0] == 't' || name[0] == 'a',
        name.len() == 14 ==> name[0] == 'l' || name[5] != 'r',
{
    reveal_strlit("llm.system");
    reveal_strlit("llm.model_name");
    reveal_strlit("llm.token_count.prompt");
    reveal_strlit("llm.token_count.completion");
    reveal_strlit("tool.name");
    reveal_strlit("tool.parameters");
    reveal_strlit("agent.name");
    reveal_strlit("agent.turn");
    reveal_strlit("agent.max_turns");
    reveal_strlit("turn.history_len");
    reveal_strlit("turn.tool_count");
    reveal_strlit("turn.has_tool_calls");
}

/// A key that starts with another letter than those dropped.
proof fn lemma_not_dropped(key: Seq<char>)
    requires
        key.len() > 0,
        key[0] != 'g',
    ensures
        !is_gen_ai(key),
{
    reveal_strlit("gen_ai.");
    if is_gen_ai(key) {
        assert("gen_ai."@[0] == key[0]);
    }
}

proof fn lemma_pair(from: Seq<char>, to: Seq<char>)
    requires
        is_pair(from, to),
    ensures
        renamed(from) == Some(to),
        is_target(to),
{
    lemma_keys();
}

proof fn lemma_renamed(from: Seq<char>)
    ensures
        renamed(from) matches Some(to) ==> is_pair(from, to),
{
}

proof fn lemma_kept(list: Seq<Attribute>, x: Attribute)
    ensures
        without_gen_ai(list).contains(x) <==> list.contains(x) && !is_gen_ai(x.key),
    decreases list.len(),
{
    if list.len() > 0 {
        let before = list.drop_last();
        lemma_kept(before, x);
        let kept = without_gen_ai(before);
        let all = without_gen_ai(list);
        if kept.contains(x) {
            let i = choose|i: int| 0 <= i < kept.len() && kept[i] == x;
            assert(all[i] == x);
        }
        if before.contains(x) {
            let i = choose|i: int| 0 <= i < before.len() && before[i] == x;
            assert(list[i] == x);
        }
        if list.contains(x) && list.last() != x {
            let i = choose|i: int| 0 <= i < list.len() && list[i] == x;
            assert(before[i] == x);
        }
        if list.last() == x {
            assert(list[list.len() - 1] == x);
            if !is_gen_ai(x.key) {
                assert(all[all.len() - 1] == x);
            }
        }
        if all.contains(x) && !kept.contains(x) {
            let i = choose|i: int| 0 <= i < all.len() && all[i] == x;
            if i < kept.len() {
                assert(kept[i] == x);
            }
        }
    }
}

proof fn lemma_all_translated(kind: Kind, list: Seq<Attribute>, n: int, x: Attribute)
    requires
        0 <= n <= list.len(),
    ensures
        all_translated(kind, list, n).contains(x) <==> exists|i: int|
            0 <= i < n && translated(kind, #[trigger] list[i]).contains(x),
    decreases n,
{
    if n > 0 {
        lemma_all_translated(kind, list, n - 1, x);
        let before = all_translated(kind, list, n - 1);
        let last = translated(kind, list[n - 1]);
        lemma_in_either(before, last, x);
        if exists|i: int| 0 <= i < n && translated(kind, #[trigger] list[i]).contains(x) {
            let i = choose|i: int| 0 <= i < n && translated(kind, #[trigger] list[i]).contains(x);
            if i < n - 1 {
                assert(translated(kind, list[i]).contains(x));
            }
        }
    }
}

proof fn lemma_in_either(a: Seq<Attribute>, b: Seq<Attribute>, x: Attribute)
    ensures
        (a + b).contains(x) <==> a.contains(x) || b.contains(x),
{
    let all = a + b;
    if a.contains(x) {
        let i = choose|i: int| 0 <= i < a.len() && a[i] == x;
        assert(all[i] == x);
    }
    if b.contains(x) {
        let i = choose|i: int| 0 <= i < b.len() && b[i] == x;
        assert(all[a.len() + i] == x);
    }
    if all.contains(x) {
        let i = choose|i: int| 0 <= i < all.len() && all[i] == x;
        if i < a.len() {
            assert(a[i] == x);
        } else {
            assert(b[i - a.len()] == x);
        }
    }
}

/// What is added for a turn.
spec fn turn_added(kind: Kind, list: Seq<Attribute>) -> Seq<Attribute> {
    let all = with_kind(kind, list);
    let n = all.len() as int;
    if shows_turns(kind) {
        turn_output(
            kind,
            last_text(all, "gen_ai.turn.response"@, n),
            last_text(all, "gen_ai.turn.reasoning"@, n),
        )
    } else {
        Seq::empty()
    }
}

/// What is in a translated span.
proof fn lemma_transformed(kind: Kind, list: Seq<Attribute>, x: Attribute)
    ensures
        transformed(kind, list).contains(x) <==> !is_gen_ai(x.key) && (with_kind(
            kind,
            list,
        ).contains(x) || all_translated(
            kind,
            with_kind(kind, list),
            (list.len() + 1) as int,
        ).contains(x) || turn_added(kind, list).contains(x)),
{
    let all = with_kind(kind, list);
    let n = all.len() as int;
    let some = all_translated(kind, all, n);
    let more = turn_added(kind, list);
    lemma_in_either(some, more, x);
    lemma_in_either(all, some + more, x);
    lemma_kept(all + (some + more), x);
    assert(transformed(kind, list) == without_gen_ai(all + (some + more)));
}

/// What one attribute becomes stands in the translated span.
proof fn lemma_becomes(kind: Kind, list: Seq<Attribute>, i: int, x: Attribute)
    requires
        0 <= i < list.len(),
        translated(kind, list[i]).contains(x),
        !is_gen_ai(x.key),
    ensures
        transformed(kind, list).contains(x),
{
    let all = with_kind(kind, list);
    lemma_transformed(kind, list, x);
    lemma_all_translated(kind, all, all.len() as int, x);
    assert(all[i] == list[i]);
}

/// For each pair, a span with an attribute of the first name has after
/// translation, whatever its kind, an attribute of the second name with the
/// same value.
pub proof fn law_attributes_are_found_again(
    kind: Kind,
    list: Seq<Attribute>,
    i: int,
    to: Seq<char>,
)
    requires
        0 <= i < list.len(),
        is_pair(list[i].key, to),
    ensures
        transformed(kind, list).contains(Attribute { key: to, value: list[i].value }),
{
    let x = Attribute { key: to, value: list[i].value };
    lemma_pair(list[i].key, to);
    lemma_targets(to);
    lemma_not_dropped(to);
    assert(translated(kind, list[i])[0] == x);
    lemma_becomes(kind, list, i, x);
}

proof fn lemma_message_attributes(rows: Seq<Seq<RowMember>>, prefix: Seq<char>, n: int, k: int)
    requires
        0 <= n <= rows.len(),
        0 <= k < message_attributes(rows, prefix, n).len(),
    ensures
        prefix.is_prefix_of(message_attributes(rows, prefix, n)[k].key),
    decreases n,
{
    if n > 0 {
        let before = message_attributes(rows, prefix, n - 1);
        let role = message_part(rows[n - 1], prefix, (n - 1) as nat, "role"@);
        let content = message_part(rows[n - 1], prefix, (n - 1) as nat, "content"@);
        let all = message_attributes(rows, prefix, n);
        if k < before.len() {
            lemma_message_attributes(rows, prefix, n - 1, k);
            assert(all[k] == before[k]);
        } else if k < before.len() + role.len() {
            assert(all[k] == role[k - before.len()]);
            let key = message_key(prefix, (n - 1) as nat, "role"@);
            assert(prefix =~= key.take(prefix.len() as int));
        } else {
            assert(all[k] == content[k - before.len() - role.len()]);
            let key = message_key(prefix, (n - 1) as nat, "content"@);
            assert(prefix =~= key.take(prefix.len() as int));
        }
    }
}

/// What an attribute becomes under a name that has keys of its own is its own
/// value, and its key is one of those.
proof fn lemma_translated_source(kind: Kind, a: Attribute, x: Attribute)
    requires
        translated(kind, a).contains(x),
        is_target(x.key),
    ensures
        is_pair(a.key, x.key),
        x.value == a.value,
{
    lemma_targets(x.key);
    lemma_renamed(a.key);
    let all = translated(kind, a);
    let k = choose|k: int| 0 <= k < all.len() && all[k] == x;
    reveal_strlit("output.value");
    reveal_strlit("input.value");
    reveal_strlit("turn.reasoning");
    reveal_strlit("llm.input_messages");
    reveal_strlit("llm.output_messages");
    if renamed(a.key) is None && (a.key == "gen_ai.input.messages"@ || a.key
        == "gen_ai.output.messages"@) && kind == Kind::Llm {
        let prefix = if a.key == "gen_ai.input.messages"@ {
            "llm.input_messages"@
        } else {
            "llm.output_messages"@
        };
        lemma_more_keys();
        match messages_of(a.value.shown()) {
            Some(rows) => {
                assert(all == message_attributes(rows, prefix, rows.len() as int));
                lemma_message_attributes(rows, prefix, rows.len() as int, k);
                assert(x.key[0] == prefix[0] && x.key[4] == prefix[4]);
            },
            None => {},
        }
    }
}

proof fn lemma_message_key_start(i: nat, part: Seq<char>)
    ensures
        message_key("llm.output_messages"@, i, part)[0] == 'l',
        message_key("llm.output_messages"@, i, part)[4] == 'o',
{
    reveal_strlit("llm.output_messages");
}

/// What is added for a turn has no name with keys of its own.
proof fn lemma_turn_source(kind: Kind, list: Seq<Attribute>, x: Attribute)
    requires
        turn_added(kind, list).contains(x),
    ensures
        !is_target(x.key),
{
    if is_target(x.key) {
        lemma_targets(x.key);
    }
    reveal_strlit("output.value");
    lemma_message_key_start(0, "role"@);
    lemma_message_key_start(0, "content"@);
    lemma_message_key_start(1, "role"@);
    lemma_message_key_start(1, "content"@);
    let all = turn_added(kind, list);
    let k = choose|k: int| 0 <= k < all.len() && all[k] == x;
    if kind == Kind::Llm {
        let whole = with_kind(kind, list);
        let response = last_text(whole, "gen_ai.turn.response"@, whole.len() as int);
        let reasoning = last_text(whole, "gen_ai.turn.reasoning"@, whole.len() as int);
        let first = match response {
            Some(text) => output_message(0, "assistant"@, text),
            None => Seq::empty(),
        };
        let place: nat = if response is Some {
            1
        } else {
            0
        };
        let second = match reasoning {
            Some(text) => output_message(place, "reasoning"@, text),
            None => Seq::empty(),
        };
        assert(all == first + second);
        if k < first.len() {
            assert(x == first[k]);
            assert(k == 0 || k == 1);
        } else {
            assert(x == second[k - first.len()]);
            assert(k - first.len() == 0 || k - first.len() == 1);
        }
        assert(x.key[0] == 'l' && x.key[4] == 'o');
    }
}

/// An attribute of one of the names, in a translated span, was there before,
/// or has its value from an attribute whose key is paired with the name.
pub proof fn law_names_have_their_own_sources(kind: Kind, list: Seq<Attribute>, x: Attribute)
    requires
        transformed(kind, list).contains(x),
        is_target(x.key),
    ensures
        list.contains(x) || exists|i: int|
            0 <= i < list.len() && is_pair((#[trigger] list[i]).key, x.key) && list[i].value
                == x.value,
{
    let all = with_kind(kind, list);
    let n = all.len() as int;
    lemma_transformed(kind, list, x);
    lemma_targets(x.key);
    reveal_strlit("openinference.span.kind");
    if all.contains(x) {
        let i = choose|i: int| 0 <= i < all.len() && all[i] == x;
        assert(i < list.len());
        assert(list[i] == x);
    } else if turn_added(kind, list).contains(x) {
        lemma_turn_source(kind, list, x);
    } else {
        lemma_all_translated(kind, all, n, x);
        let i = choose|i: int| 0 <= i < n && translated(kind, #[trigger] all[i]).contains(x);
        lemma_translated_source(kind, all[i], x);
        if i == list.len() {
            lemma_keys();
            assert(all[i].key[0] == 'o');
            lemma_pair_starts(all[i].key, x.key);
        }
        assert(all[i] == list[i]);
    }
}

proof fn lemma_pair_starts(from: Seq<char>, to: Seq<char>)
    requires
        is_pair(from, to),
    ensures
        from.len() > 0,
        from[0] == 'g',
{
    reveal_strlit("gen_ai.system");
    reveal_strlit("gen_ai.provider.name");
    reveal_strlit("gen_ai.request.model");
    reveal_strlit("gen_ai.usage.input_tokens");
    reveal_strlit("gen_ai.usage.output_tokens");
    reveal_strlit("gen_ai.tool.name");
    reveal_strlit("gen_ai.tool.call.arguments");
    reveal_strlit("gen_ai.agent.name");
    reveal_strlit("gen_ai.agent.turn");
    reveal_strlit("gen_ai.agent.max_turns");
    reveal_strlit("gen_ai.turn.history_len");
    reveal_strlit("gen_ai.turn.tool_count");
    reveal_strlit("gen_ai.turn.has_tool_calls");
}

/// The model's name comes from the requested model alone, and the provider
/// becomes the system.
pub proof fn law_model_name_is_the_requested_model(
    kind: Kind,
    list: Seq<Attribute>,
    x: Attribute,
)
    requires
        forall|i: int|
            0 <= i < list.len() ==> (#[trigger] list[i]).key != "llm.model_name"@,
        transformed(kind, list).contains(x),
        x.key == "llm.model_name"@,
    ensures
        list.contains(Attribute { key: "gen_ai.request.model"@, value: x.value }),
{
    law_names_have_their_own_sources(kind, list, x);
    if list.contains(x) {
        let i = choose|i: int| 0 <= i < list.len() && list[i] == x;
        assert(list[i].key == "llm.model_name"@);
    }
    let i = choose|i: int|
        0 <= i < list.len() && is_pair((#[trigger] list[i]).key, x.key) && list[i].value == x.value;
    lemma_model_name_source(list[i].key);
    assert(list[i] == Attribute { key: "gen_ai.request.model"@, value: x.value });
}

proof fn lemma_model_name_source(from: Seq<char>)
    requires
        is_pair(from, "llm.model_name"@),
    ensures
        from == "gen_ai.request.model"@,
{
    reveal_strlit("llm.system");
    reveal_strlit("llm.model_name");
    reveal_strlit("llm.token_count.prompt");
    reveal_strlit("llm.token_count.completion");
    reveal_strlit("tool.name");
    reveal_strlit("tool.parameters");
    reveal_strlit("agent.name");
    reveal_strlit("agent.turn");
    reveal_strlit("agent.max_turns");
    reveal_strlit("turn.history_len");
    reveal_strlit("turn.tool_count");
    reveal_strlit("turn.has_tool_calls");
    assert("llm.model_name"@[4] == 'm');
    assert("llm.system"@[4] == 's');
}

/// The names of spans that are no chains, and their kinds.
pub open spec fn is_kind_name(name: Seq<char>, kind: Kind) -> bool {
    ||| name == "chat"@ && kind == Kind::Llm
    ||| name == "chat_streaming"@ && kind == Kind::Llm
    ||| name == "agent.turn"@ && kind == Kind::Llm
    ||| name == "execute_tool"@ && kind == Kind::Tool
    ||| name == "mcp.tool_call"@ && kind == Kind::Tool
    ||| name == "agent.stream"@ && kind == Kind::Agent
    ||| name == "agent.prompt"@ && kind == Kind::Agent
    ||| name == "agent.chat"@ && kind == Kind::Agent
}

/// Each of these names has its kind, and every other span is a chain.
pub proof fn law_kinds_by_name(name: Seq<char>, kind: Kind)
    ensures
        is_kind_name(name, kind) ==> kind_of(name) == kind,
        kind_of(name) != Kind::Chain ==> is_kind_name(name, kind_of(name)),
{
    reveal_strlit("chat");
    reveal_strlit("chat_streaming");
    reveal_strlit("agent.turn");
    reveal_strlit("execute_tool");
    reveal_strlit("mcp.tool_call");
    reveal_strlit("agent.stream");
    reveal_strlit("agent.prompt");
    reveal_strlit("agent.chat");
    assert("chat"@.len() == 4 && "chat_streaming"@.len() == 14 && "agent.turn"@.len() == 10);
    assert("execute_tool"@.len() == 12 && "execute_tool"@[0] == 'e');
    assert("mcp.tool_call"@.len() == 13);
    assert("agent.stream"@.len() == 12 && "agent.stream"@[0] == 'a');
    assert("agent.prompt"@.len() == 12 && "agent.prompt"@[0] == 'a');
    assert("agent.chat"@.len() == 10 && "agent.chat"@[6] == 'c' && "agent.turn"@[6] == 't');
}

/// A translated span says what kind it is.
pub proof fn law_kind_is_told(kind: Kind, list: Seq<Attribute>)
    ensures
        transformed(kind, list).contains(
            text_attribute(
                "openinference.span.kind"@,
                match kind {
                    Kind::Llm => "LLM"@,
                    Kind::Tool => "TOOL"@,
                    Kind::Agent => "AGENT"@,
                    Kind::Chain => "CHAIN"@,
                },
            ),
        ),
{
    let all = with_kind(kind, list);
    let x = all.last();
    reveal_strlit("openinference.span.kind");
    lemma_not_dropped(x.key);
    assert(all[all.len() - 1] == x);
    lemma_transformed(kind, list, x);
}

/// A tool's result is the output of its span, a turn's prompt the input of a
/// chain or a model call, and a turn's reasoning stays with either.
pub proof fn law_values_by_kind(kind: Kind, list: Seq<Attribute>, i: int)
    requires
        0 <= i < list.len(),
    ensures
        list[i].key == "gen_ai.tool.call.result"@ && kind == Kind::Tool ==> transformed(
            kind,
            list,
        ).contains(Attribute { key: "output.value"@, value: list[i].value }),
        list[i].key == "gen_ai.turn.prompt"@ && (kind == Kind::Chain || kind == Kind::Llm)
            ==> transformed(kind, list).contains(
            Attribute { key: "input.value"@, value: list[i].value },
        ),
        list[i].key == "gen_ai.turn.reasoning"@ && (kind == Kind::Chain || kind == Kind::Llm)
            ==> transformed(kind, list).contains(
            Attribute { key: "turn.reasoning"@, value: list[i].value },
        ),
{
    lemma_keys();
    lemma_more_keys();
    reveal_strlit("output.value");
    reveal_strlit("input.value");
    reveal_strlit("turn.reasoning");
    let a = list[i];
    if a.key == "gen_ai.tool.call.result"@ && kind == Kind::Tool {
        let x = Attribute { key: "output.value"@, value: a.value };
        assert(translated(kind, a)[0] == x);
        lemma_not_dropped(x.key);
        lemma_becomes(kind, list, i, x);
    }
    if a.key == "gen_ai.turn.prompt"@ && shows_turns(kind) {
        let x = Attribute { key: "input.value"@, value: a.value };
        assert(translated(kind, a)[0] == x);
        lemma_not_dropped(x.key);
        lemma_becomes(kind, list, i, x);
    }
    if a.key == "gen_ai.turn.reasoning"@ && shows_turns(kind) {
        let x = Attribute { key: "turn.reasoning"@, value: a.value };
        assert(translated(kind, a)[0] == x);
        lemma_not_dropped(x.key);
        lemma_becomes(kind, list, i, x);
    }
}

/// Neither an input nor an output is made up: a span of another kind than a
/// chain or a model call gets no input, and an agent's span no output.
pub proof fn law_other_kinds_get_no_values(kind: Kind, list: Seq<Attribute>, x: Attribute)
    requires
        transformed(kind, list).contains(x),
    ensures
        x.key == "input.value"@ && (kind == Kind::Tool || kind == Kind::Agent) ==> list.contains(x),
        x.key == "output.value"@ && kind == Kind::Agent ==> list.contains(x),
        x.key == "output.value"@ && kind == Kind::Tool ==> list.contains(x) || list.contains(
            Attribute { key: "gen_ai.tool.call.result"@, value: x.value },
        ),
{
    let all = with_kind(kind, list);
    let n = all.len() as int;
    lemma_transformed(kind, list, x);
    reveal_strlit("input.value");
    reveal_strlit("output.value");
    reveal_strlit("openinference.span.kind");
    if all.contains(x) {
        let i = choose|i: int| 0 <= i < all.len() && all[i] == x;
        if x.key == "input.value"@ || x.key == "output.value"@ {
            assert(x.key.len() < 23);
            assert(i < list.len());
            assert(list[i] == x);
        }
    } else if (kind == Kind::Tool || kind == Kind::Agent) && (x.key == "input.value"@ || x.key
        == "output.value"@) {
        lemma_all_translated(kind, all, n, x);
        let i = choose|i: int| 0 <= i < n && translated(kind, #[trigger] all[i]).contains(x);
        let made = translated(kind, all[i]);
        let k = choose|k: int| 0 <= k < made.len() && made[k] == x;
        lemma_renamed(all[i].key);
        if renamed(all[i].key) is Some {
            lemma_pair(all[i].key, x.key);
            lemma_targets(x.key);
        }
        assert(all[i].key == "gen_ai.tool.call.result"@ && kind == Kind::Tool);
        lemma_more_keys();
        if i == list.len() {
            reveal_strlit("gen_ai.tool.call.result");
            assert(all[i].key[0] == 'o');
        }
        assert(all[i] == list[i]);
        assert(list[i] == Attribute { key: "gen_ai.tool.call.result"@, value: x.value });
    }
}

/// The last text of a key: that of the last attribute with it.
proof fn lemma_last(list: Seq<Attribute>, key: Seq<char>, n: int, i: int)
    requires
        0 <= i < n <= list.len(),
        list[i].key == key,
        forall|j: int| i < j < n ==> (#[trigger] list[j]).key != key,
    ensures
        last_text(list, key, n) == Some(list[i].value.shown()),
    decreases n,
{
    if i < n - 1 {
        assert(list[n - 1].key != key);
        lemma_last(list, key, n - 1, i);
    }
}

/// The response of a turn, the last where there are more, is the output of a
/// chain, and the first output message of a model call, by the assistant.
pub proof fn law_response_is_the_output(kind: Kind, list: Seq<Attribute>, i: int)
    requires
        0 <= i < list.len(),
        list[i].key == "gen_ai.turn.response"@,
        forall|j: int| i < j < list.len() ==> (#[trigger] list[j]).key != "gen_ai.turn.response"@,
    ensures
        kind == Kind::Chain ==> transformed(kind, list).contains(
            text_attribute("output.value"@, list[i].value.shown()),
        ),
        kind == Kind::Llm ==> transformed(kind, list).contains(
            text_attribute(
                "llm.output_messages."@ + numeral(0) + ".message.content"@,
                list[i].value.shown(),
            ),
        ),
        kind == Kind::Llm ==> transformed(kind, list).contains(
            text_attribute("llm.output_messages."@ + numeral(0) + ".message.role"@, "assistant"@),
        ),
{
    let all = with_kind(kind, list);
    let n = all.len() as int;
    reveal_strlit("openinference.span.kind");
    lemma_more_keys();
    assert forall|j: int| i < j < n implies (#[trigger] all[j]).key != "gen_ai.turn.response"@ by {
        if j < list.len() {
            assert(all[j] == list[j]);
        } else {
            assert(all[j].key.len() == 23);
        }
    }
    assert(all[i] == list[i]);
    lemma_last(all, "gen_ai.turn.response"@, n, i);
    let text = list[i].value.shown();
    let added = turn_added(kind, list);
    if kind == Kind::Chain {
        let x = text_attribute("output.value"@, text);
        reveal_strlit("output.value");
        lemma_not_dropped(x.key);
        assert(added[0] == x);
        lemma_transformed(kind, list, x);
    }
    if kind == Kind::Llm {
        let first = output_message(0, "assistant"@, text);
        assert(added[0] == first[0] && added[1] == first[1]);
        lemma_message_keys(0);
        lemma_message_key_start(0, "role"@);
        lemma_message_key_start(0, "content"@);
        lemma_not_dropped(first[0].key);
        lemma_not_dropped(first[1].key);
        assert(added.contains(first[0]) && added.contains(first[1]));
        lemma_transformed(kind, list, first[0]);
        lemma_transformed(kind, list, first[1]);
    }
}

/// The keys of the parts of an output message.
proof fn lemma_message_keys(i: nat)
    ensures
        message_key("llm.output_messages"@, i, "role"@) == "llm.output_messages."@ + numeral(i)
            + ".message.role"@,
        message_key("llm.output_messages"@, i, "content"@) == "llm.output_messages."@ + numeral(i)
            + ".message.content"@,
        message_key("llm.input_messages"@, i, "role"@) == "llm.input_messages."@ + numeral(i)
            + ".message.role"@,
        message_key("llm.input_messages"@, i, "content"@) == "llm.input_messages."@ + numeral(i)
            + ".message.content"@,
{
    reveal_strlit("llm.output_messages");
    reveal_strlit("llm.output_messages.");
    reveal_strlit("llm.input_messages");
    reveal_strlit("llm.input_messages.");
    reveal_strlit(".");
    reveal_strlit(".message.");
    reveal_strlit("role");
    reveal_strlit("content");
    reveal_strlit(".message.role");
    reveal_strlit(".message.content");
    assert("llm.output_messages"@ + "."@ =~= "llm.output_messages."@);
    assert("llm.input_messages"@ + "."@ =~= "llm.input_messages."@);
    assert(".message."@ + "role"@ =~= ".message.role"@);
    assert(".message."@ + "content"@ =~= ".message.content"@);
    let (o, p) = ("llm.output_messages."@ + numeral(i), "llm.input_messages."@ + numeral(i));
    assert(o + ".message."@ + "role"@ =~= o + ".message.role"@);
    assert(o + ".message."@ + "content"@ =~= o + ".message.content"@);
    assert(p + ".message."@ + "role"@ =~= p + ".message.role"@);
    assert(p + ".message."@ + "content"@ =~= p + ".message.content"@);
}

proof fn lemma_part_is_there(
    rows: Seq<Seq<RowMember>>,
    prefix: Seq<char>,
    n: int,
    i: int,
    part: Seq<char>,
    text: Seq<char>,
)
    requires
        0 <= i < n <= rows.len(),
        part == "role"@ || part == "content"@,
        member_text(rows[i], part, 0) == Some(text),
    ensures
        message_attributes(rows, prefix, n).contains(
            text_attribute(message_key(prefix, i as nat, part), text),
        ),
    decreases n,
{
    let x = text_attribute(message_key(prefix, i as nat, part), text);
    let before = message_attributes(rows, prefix, n - 1);
    let role = message_part(rows[n - 1], prefix, (n - 1) as nat, "role"@);
    let content = message_part(rows[n - 1], prefix, (n - 1) as nat, "content"@);
    lemma_in_either(before, role, x);
    lemma_in_either(before + role, content, x);
    if i < n - 1 {
        lemma_part_is_there(rows, prefix, n - 1, i, part, text);
    } else {
        let own = message_part(rows[i], prefix, i as nat, part);
        assert(own[0] == x);
    }
}

/// In a model call, the role and the content of each message that an
/// attribute spells stand under the message's number, those of inputs apart
/// from those of outputs.
pub proof fn law_messages_are_numbered(
    list: Seq<Attribute>,
    k: int,
    rows: Seq<Seq<RowMember>>,
    i: int,
)
    requires
        0 <= k < list.len(),
        list[k].key == "gen_ai.input.messages"@ || list[k].key == "gen_ai.output.messages"@,
        messages_of(list[k].value.shown()) == Some(rows),
        0 <= i < rows.len(),
    ensures
        member_text(rows[i], "role"@, 0) matches Some(text) ==> transformed(
            Kind::Llm,
            list,
        ).contains(
            text_attribute(
                (if list[k].key == "gen_ai.input.messages"@ {
                    "llm.input_messages."@
                } else {
                    "llm.output_messages."@
                }) + numeral(i as nat) + ".message.role"@,
                text,
            ),
        ),
        member_text(rows[i], "content"@, 0) matches Some(text) ==> transformed(
            Kind::Llm,
            list,
        ).contains(
            text_attribute(
                (if list[k].key == "gen_ai.input.messages"@ {
                    "llm.input_messages."@
                } else {
                    "llm.output_messages."@
                }) + numeral(i as nat) + ".message.content"@,
                text,
            ),
        ),
{
    lemma_keys();
    lemma_more_keys();
    lemma_message_keys(i as nat);
    let prefix = if list[k].key == "gen_ai.input.messages"@ {
        "llm.input_messages"@
    } else {
        "llm.output_messages"@
    };
    reveal_strlit("llm.input_messages");
    reveal_strlit("llm.output_messages");
    let n = rows.len() as int;
    assert(renamed(list[k].key) is None);
    assert(translated(Kind::Llm, list[k]) == message_attributes(rows, prefix, n));
    match member_text(rows[i], "role"@, 0) {
        Some(text) => {
            let x = text_attribute(message_key(prefix, i as nat, "role"@), text);
            lemma_part_is_there(rows, prefix, n, i, "role"@, text);
            assert(x.key[0] == prefix[0]);
            lemma_not_dropped(x.key);
            lemma_becomes(Kind::Llm, list, k, x);
        },
        None => {},
    }
    match member_text(rows[i], "content"@, 0) {
        Some(text) => {
            let x = text_attribute(message_key(prefix, i as nat, "content"@), text);
            lemma_part_is_there(rows, prefix, n, i, "content"@, text);
            assert(x.key[0] == prefix[0]);
            lemma_not_dropped(x.key);
            lemma_becomes(Kind::Llm, list, k, x);
        },
        None => {},
    }
}

/// The reasoning of a turn is, in a model call, the output message behind the
/// response, and the first where there is no response.
pub proof fn law_reasoning_follows_the_response(list: Seq<Attribute>, i: int, responded: bool)
    requires
        0 <= i < list.len(),
        list[i].key == "gen_ai.turn.reasoning"@,
        forall|j: int| i < j < list.len() ==> (#[trigger] list[j]).key != "gen_ai.turn.reasoning"@,
        responded == exists|j: int|
            0 <= j < list.len() && (#[trigger] list[j]).key == "gen_ai.turn.response"@,
    ensures
        ({
            let place: nat = if responded {
                1
            } else {
                0
            };
            let made = transformed(Kind::Llm, list);
            &&& made.contains(
                text_attribute(
                    "llm.output_messages."@ + numeral(place) + ".message.role"@,
                    "reasoning"@,
                ),
            )
            &&& made.contains(
                text_attribute(
                    "llm.output_messages."@ + numeral(place) + ".message.content"@,
                    list[i].value.shown(),
                ),
            )
        }),
{
    let kind = Kind::Llm;
    let all = with_kind(kind, list);
    let n = all.len() as int;
    reveal_strlit("openinference.span.kind");
    lemma_more_keys();
    assert forall|j: int| i < j < n implies (#[trigger] all[j]).key != "gen_ai.turn.reasoning"@ by {
        if j < list.len() {
            assert(all[j] == list[j]);
        } else {
            assert(all[j].key.len() == 23);
        }
    }
    assert(all[i] == list[i]);
    lemma_last(all, "gen_ai.turn.reasoning"@, n, i);
    lemma_some_last(all, "gen_ai.turn.response"@, n);
    let response = last_text(all, "gen_ai.turn.response"@, n);
    assert(response is Some == responded) by {
        if responded {
            let j = choose|j: int|
                0 <= j < list.len() && (#[trigger] list[j]).key == "gen_ai.turn.response"@;
            assert(all[j].key == "gen_ai.turn.response"@);
        }
        if response is Some {
            let j = choose|j: int|
                0 <= j < n && (#[trigger] all[j]).key == "gen_ai.turn.response"@;
            assert(j < list.len());
            assert(list[j].key == "gen_ai.turn.response"@);
        }
    }
    let text = list[i].value.shown();
    let place: nat = if responded {
        1
    } else {
        0
    };
    let first = match response {
        Some(said) => output_message(0, "assistant"@, said),
        None => Seq::empty(),
    };
    let own = output_message(place, "reasoning"@, text);
    let added = turn_added(kind, list);
    assert(added == first + own);
    let m = first.len() as int;
    assert(added[m] == own[0] && added[m + 1] == own[1]);
    lemma_message_keys(place);
    lemma_message_key_start(place, "role"@);
    lemma_message_key_start(place, "content"@);
    lemma_not_dropped(own[0].key);
    lemma_not_dropped(own[1].key);
    assert(added.contains(own[0]) && added.contains(own[1]));
    lemma_transformed(kind, list, own[0]);
    lemma_transformed(kind, list, own[1]);
}

proof fn lemma_some_last(list: Seq<Attribute>, key: Seq<char>, n: int)
    requires
        0 <= n <= list.len(),
    ensures
        last_text(list, key, n) is Some <==> exists|j: int|
            0 <= j < n && (#[trigger] list[j]).key == key,
    decreases n,
{
    if n > 0 {
        lemma_some_last(list, key, n - 1);
        if exists|j: int| 0 <= j < n && (#[trigger] list[j]).key == key {
            let j = choose|j: int| 0 <= j < n && (#[trigger] list[j]).key == key;
            if j < n - 1 {
                assert(list[j].key == key);
            }
        }
    }
}

} // verus!
