//! Context windows of models.
//!
//! A model is looked up by the longest entry that its name begins with, so
//! that a dated variant finds the entry of its family. The table is not
//! complete: models of some vendors are missing from it, and their names find
//! nothing.
use crate::text::search::{
    last_of, lemma_last_of_is, lemma_rfind_from, occurs_at, rfind, skip, starts_with,
};
use crate::text::char_count;
use vstd::prelude::*;

verus! {

/// The known models with their context windows in tokens.
#[verifier::opaque]
pub open spec fn limits() -> Seq<(&'static str, u32)> {
    seq![
        // OpenAI GPT-5.x (API) - 400K context
        ("gpt-5.2", 400_000u32),
        ("gpt-5.2-pro", 400_000u32),
        ("gpt-5.1", 400_000u32),
        ("gpt-5", 400_000u32),
        ("gpt-5-mini", 400_000u32),
        ("gpt-5-nano", 400_000u32),
        // OpenAI GPT-5.x (Chat) - 128K context
        ("gpt-5.2-chat-latest", 128_000u32),
        ("gpt-5.1-chat-latest", 128_000u32),
        ("gpt-5-chat-latest", 128_000u32),
        // OpenAI GPT-4.1 - 1M context
        ("gpt-4.1", 1_000_000u32),
        ("gpt-4.1-mini", 1_000_000u32),
        ("gpt-4.1-nano", 1_000_000u32),
        // OpenAI GPT-4.x - 128K context
        ("gpt-4o", 128_000u32),
        ("gpt-4o-mini", 128_000u32),
        ("gpt-4-turbo", 128_000u32),
        ("gpt-4", 8_192u32),
        ("gpt-4-32k", 32_768u32),
        ("gpt-3.5-turbo", 16_385u32),
        ("gpt-3.5-turbo-16k", 16_385u32),
        // OpenAI o-series (reasoning models)
        ("o3", 200_000u32),
        ("o3-pro", 200_000u32),
        ("o3-mini", 128_000u32),
        ("o4-mini", 200_000u32),
        ("o1", 128_000u32),
        ("o1-mini", 128_000u32),
        ("o1-preview", 128_000u32),
        // Google Gemini 3 (preview)
        ("gemini-3-pro-preview", 1_000_000u32),
        ("gemini-3-flash-preview", 1_000_000u32),
        // Google Gemini 2.x
        ("gemini-2.5-pro", 1_000_000u32),
        ("gemini-2.5-flash", 1_000_000u32),
        ("gemini-2.0-flash", 1_000_000u32),
        ("gemini-2.0-pro-exp", 2_000_000u32),
        // Google Gemini 1.x
        ("gemini-1.5-pro", 2_000_000u32),
        ("gemini-1.5-flash", 1_000_000u32),
        ("gemini-1.0-pro", 32_000u32),
        // Ollama / Local - Qwen3
        ("qwen3:0.6b", 32_000u32),
        ("qwen3:1.7b", 32_000u32),
        ("qwen3:4b", 40_000u32),
        ("qwen3:8b", 40_000u32),
        ("qwen3:14b", 40_000u32),
        ("qwen3:32b", 40_000u32),
        ("qwen3:30b", 256_000u32),
        ("qwen3:235b", 256_000u32),
        ("qwen3-coder", 256_000u32),
        ("qwen3-vl", 256_000u32),
        ("qwq", 128_000u32),
        // Ollama / Local - Qwen2.5
        ("qwen2.5", 128_000u32),
        ("qwen2.5:32b", 128_000u32),
        ("qwen2.5:72b", 128_000u32),
        ("qwen2.5-1m", 1_000_000u32),
        ("qwen2.5-coder", 128_000u32),
        // Ollama / Local - DeepSeek
        ("deepseek-r1", 128_000u32),
        ("deepseek-r1:8b", 128_000u32),
        ("deepseek-r1:32b", 128_000u32),
        ("deepseek-r1:70b", 128_000u32),
        ("deepseek-v3", 128_000u32),
        ("deepseek-v3.1", 128_000u32),
        ("deepseek-coder", 128_000u32),
        // Ollama / Local - Llama 4
        ("llama4:scout", 10_000_000u32),
        ("llama4:maverick", 1_000_000u32),
        // Ollama / Local - Llama 3.x
        ("llama3.3:70b", 128_000u32),
        ("llama3.2", 128_000u32),
        ("llama3.1", 128_000u32),
        ("llama3", 8_000u32),
        // Ollama / Local - Mistral
        ("mistral-large", 128_000u32),
        ("mistral-small", 128_000u32),
        ("mistral-nemo", 128_000u32),
        ("mixtral:8x22b", 64_000u32),
        ("mixtral:8x7b", 32_000u32),
        ("codestral", 256_000u32),
        // Ollama / Local - Google Gemma
        ("gemma3:1b", 32_000u32),
        ("gemma3", 128_000u32),
        ("gemma2", 8_000u32),
        // Ollama / Local - Microsoft Phi
        ("phi4", 16_000u32),
        ("phi4-mini", 128_000u32),
        ("phi4-reasoning", 32_000u32),
        ("phi3", 128_000u32),
    ]
}

/// The known models with their context windows in tokens.
pub fn model_context_limits() -> (r: Vec<(&'static str, u32)>)
    ensures
        r@ == limits(),
{
    let r: Vec<(&'static str, u32)> = vec![
        ("gpt-5.2", 400_000u32),
        ("gpt-5.2-pro", 400_000u32),
        ("gpt-5.1", 400_000u32),
        ("gpt-5", 400_000u32),
        ("gpt-5-mini", 400_000u32),
        ("gpt-5-nano", 400_000u32),
        ("gpt-5.2-chat-latest", 128_000u32),
        ("gpt-5.1-chat-latest", 128_000u32),
        ("gpt-5-chat-latest", 128_000u32),
        ("gpt-4.1", 1_000_000u32),
        ("gpt-4.1-mini", 1_000_000u32),
        ("gpt-4.1-nano", 1_000_000u32),
        ("gpt-4o", 128_000u32),
        ("gpt-4o-mini", 128_000u32),
        ("gpt-4-turbo", 128_000u32),
        ("gpt-4", 8_192u32),
        ("gpt-4-32k", 32_768u32),
        ("gpt-3.5-turbo", 16_385u32),
        ("gpt-3.5-turbo-16k", 16_385u32),
        ("o3", 200_000u32),
        ("o3-pro", 200_000u32),
        ("o3-mini", 128_000u32),
        ("o4-mini", 200_000u32),
        ("o1", 128_000u32),
        ("o1-mini", 128_000u32),
        ("o1-preview", 128_000u32),
        ("gemini-3-pro-preview", 1_000_000u32),
        ("gemini-3-flash-preview", 1_000_000u32),
        ("gemini-2.5-pro", 1_000_000u32),
        ("gemini-2.5-flash", 1_000_000u32),
        ("gemini-2.0-flash", 1_000_000u32),
        ("gemini-2.0-pro-exp", 2_000_000u32),
        ("gemini-1.5-pro", 2_000_000u32),
        ("gemini-1.5-flash", 1_000_000u32),
        ("gemini-1.0-pro", 32_000u32),
        ("qwen3:0.6b", 32_000u32),
        ("qwen3:1.7b", 32_000u32),
        ("qwen3:4b", 40_000u32),
        ("qwen3:8b", 40_000u32),
        ("qwen3:14b", 40_000u32),
        ("qwen3:32b", 40_000u32),
        ("qwen3:30b", 256_000u32),
        ("qwen3:235b", 256_000u32),
        ("qwen3-coder", 256_000u32),
        ("qwen3-vl", 256_000u32),
        ("qwq", 128_000u32),
        ("qwen2.5", 128_000u32),
        ("qwen2.5:32b", 128_000u32),
        ("qwen2.5:72b", 128_000u32),
        ("qwen2.5-1m", 1_000_000u32),
        ("qwen2.5-coder", 128_000u32),
        ("deepseek-r1", 128_000u32),
        ("deepseek-r1:8b", 128_000u32),
        ("deepseek-r1:32b", 128_000u32),
        ("deepseek-r1:70b", 128_000u32),
        ("deepseek-v3", 128_000u32),
        ("deepseek-v3.1", 128_000u32),
        ("deepseek-coder", 128_000u32),
        ("llama4:scout", 10_000_000u32),
        ("llama4:maverick", 1_000_000u32),
        ("llama3.3:70b", 128_000u32),
        ("llama3.2", 128_000u32),
        ("llama3.1", 128_000u32),
        ("llama3", 8_000u32),
        ("mistral-large", 128_000u32),
        ("mistral-small", 128_000u32),
        ("mistral-nemo", 128_000u32),
        ("mixtral:8x22b", 64_000u32),
        ("mixtral:8x7b", 32_000u32),
        ("codestral", 256_000u32),
        ("gemma3:1b", 32_000u32),
        ("gemma3", 128_000u32),
        ("gemma2", 8_000u32),
        ("phi4", 16_000u32),
        ("phi4-mini", 128_000u32),
        ("phi4-reasoning", 32_000u32),
        ("phi3", 128_000u32),
    ];
    proof {
        reveal(limits);
    }
    r
}

/// The name of a model without the provider before it.
pub open spec fn bare_name(model: Seq<char>) -> Seq<char> {
    match last_of(model, "/"@) {
        Some(i) => model.skip(i + 1),
        None => model,
    }
}

/// Whether a name begins with the entry at a place.
pub open spec fn begins_with(name: Seq<char>, table: Seq<(&'static str, u32)>, i: int) -> bool {
    table[i].0@.is_prefix_of(name)
}

/// The place of the longest of the first `n` entries that a name begins with.
pub open spec fn longest(name: Seq<char>, table: Seq<(&'static str, u32)>, n: int) -> Option<int>
    decreases n,
{
    if n <= 0 || n > table.len() {
        None
    } else {
        match longest(name, table, n - 1) {
            Some(i) => if begins_with(name, table, n - 1) && table[n - 1].0@.len()
                > table[i].0@.len() {
                Some(n - 1)
            } else {
                Some(i)
            },
            None => if begins_with(name, table, n - 1) {
                Some(n - 1)
            } else {
                None
            },
        }
    }
}

/// The context window of a model in a table.
pub open spec fn limit_in(model: Seq<char>, table: Seq<(&'static str, u32)>) -> Option<u32> {
    match longest(bare_name(model), table, table.len() as int) {
        Some(i) => Some(table[i].1),
        None => None,
    }
}

/// The name of a model without the provider before it.
fn without_provider(model: &str) -> (r: &str)
    ensures
        r@ == bare_name(model@),
{
    let length: usize = char_count(model);
    match rfind(model, "/") {
        Some(i) => {
            proof {
                reveal_strlit("/");
                lemma_rfind_from(model@, "/"@, length - 1);
            }
            skip(model, i + 1)
        },
        None => model,
    }
}

/// The context window of a model in tokens, where a table knows it. A provider
/// before the name is ignored.
pub fn get_context_limit_in(model: &str, table: &Vec<(&'static str, u32)>) -> (r: Option<u32>)
    ensures
        r == limit_in(model@, table@),
{
    let name = without_provider(model);
    let mut best: Option<usize> = None;
    for n in 0..table.len()
        invariant
            match best {
                Some(i) => i < n && longest(name@, table@, n as int) == Some(i as int),
                None => longest(name@, table@, n as int) is None,
            },
    {
        if starts_with(name, table[n].0) {
            let longer = match best {
                Some(i) => char_count(table[n].0) > char_count(table[i].0),
                None => true,
            };
            if longer {
                best = Some(n);
            }
        }
    }
    match best {
        Some(i) => Some(table[i].1),
        None => None,
    }
}

/// The context window of a model in tokens, where it is known. A provider
/// before the name is ignored.
pub fn get_context_limit(model: &str) -> (r: Option<u32>)
    ensures
        r == limit_in(model@, limits()),
{
    get_context_limit_in(model, &model_context_limits())
}

/// The entry that a name finds is one it begins with, none that it begins
/// with is longer, and a name finds nothing only where it begins with no
/// entry.
pub proof fn law_longest_entry(name: Seq<char>, table: Seq<(&'static str, u32)>, n: int)
    requires
        0 <= n <= table.len(),
    ensures
        match longest(name, table, n) {
            Some(i) => {
                &&& 0 <= i < n
                &&& begins_with(name, table, i)
                &&& forall|j: int|
                    0 <= j < n && #[trigger] begins_with(name, table, j) ==> table[j].0@.len()
                        <= table[i].0@.len()
            },
            None => forall|j: int| 0 <= j < n ==> !#[trigger] begins_with(name, table, j),
        },
    decreases n,
{
    if n > 0 {
        law_longest_entry(name, table, n - 1);
    }
}

/// A name that is itself an entry finds an entry of just that name.
pub proof fn law_exact_name_wins(name: Seq<char>, table: Seq<(&'static str, u32)>, k: int)
    requires
        0 <= k < table.len(),
        table[k].0@ == name,
    ensures
        longest(name, table, table.len() as int) matches Some(i) && table[i].0@ == name,
{
    law_longest_entry(name, table, table.len() as int);
    assert(begins_with(name, table, k));
    let i = longest(name, table, table.len() as int)->0;
    assert(table[i].0@ =~= name);
}

/// A provider before a name makes no difference.
pub proof fn law_provider_is_ignored(
    provider: Seq<char>,
    name: Seq<char>,
    table: Seq<(&'static str, u32)>,
)
    ensures
        limit_in(provider + "/"@ + name, table) == limit_in(name, table),
{
    reveal_strlit("/");
    let whole = provider + "/"@ + name;
    let k = provider.len() as int;
    lemma_rfind_from(name, "/"@, name.len() - 1);
    match last_of(name, "/"@) {
        Some(i) => {
            let at = k + 1 + i;
            assert(whole.subrange(at, at + 1) =~= name.subrange(i, i + 1));
            assert forall|j: int| at < j implies !#[trigger] occurs_at(whole, "/"@, j) by {
                if occurs_at(whole, "/"@, j) {
                    assert(name.subrange(j - k - 1, j - k) =~= whole.subrange(j, j + 1));
                    assert(occurs_at(name, "/"@, j - k - 1));
                }
            }
            lemma_last_of_is(whole, "/"@, at);
            assert(whole.skip(at + 1) =~= name.skip(i + 1));
        },
        None => {
            assert(whole.subrange(k, k + 1) =~= "/"@);
            assert forall|j: int| k < j implies !#[trigger] occurs_at(whole, "/"@, j) by {
                if occurs_at(whole, "/"@, j) {
                    assert(name.subrange(j - k - 1, j - k) =~= whole.subrange(j, j + 1));
                    assert(occurs_at(name, "/"@, j - k - 1));
                }
            }
            lemma_last_of_is(whole, "/"@, k);
            assert(whole.skip(k + 1) =~= name);
        },
    }
}

/// A model that is an entry of the table has the limit of that entry, and one
/// that begins with no entry has none.
pub proof fn law_limit_is_that_of_the_entry(
    name: Seq<char>,
    table: Seq<(&'static str, u32)>,
    k: int,
)
    requires
        forall|i: int| 0 <= i < name.len() ==> name[i] != '/',
        forall|i: int, j: int|
            0 <= i < j < table.len() ==> (#[trigger] table[i]).0@ != (#[trigger] table[j]).0@,
    ensures
        0 <= k < table.len() && table[k].0@ == name ==> limit_in(name, table) == Some(table[k].1),
        (forall|i: int|
            0 <= i < table.len() ==> !(#[trigger] table[i]).0@.is_prefix_of(name)) ==> limit_in(
            name,
            table,
        ) is None,
{
    reveal_strlit("/");
    lemma_rfind_from(name, "/"@, name.len() - 1);
    match last_of(name, "/"@) {
        Some(i) => {
            assert(name.subrange(i, i + 1)[0] == '/');
            assert(name[i] == '/');
        },
        None => {},
    }
    law_longest_entry(name, table, table.len() as int);
    if 0 <= k < table.len() && table[k].0@ == name {
        law_exact_name_wins(name, table, k);
        let i = longest(name, table, table.len() as int)->0;
        if i < k {
            assert(table[i].0@ != table[k].0@);
        } else if k < i {
            assert(table[k].0@ != table[i].0@);
        }
    }
    match longest(name, table, table.len() as int) {
        Some(i) => {
            assert(begins_with(name, table, i));
        },
        None => {},
    }
}

} // verus!
