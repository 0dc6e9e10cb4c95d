//! Context windows by model name.
use aura::model_limits::{get_context_limit, get_context_limit_in, model_context_limits};

#[test]
fn test_exact_match() {
    assert_eq!(get_context_limit("gpt-4o"), Some(128_000));
    assert_eq!(get_context_limit("gpt-4"), Some(8_192));
}

#[test]
fn test_prefix_match() {
    assert_eq!(get_context_limit("gpt-4o-2024-08-06"), Some(128_000));
    assert_eq!(get_context_limit("gpt-4-turbo-preview"), Some(128_000));
}

#[test]
fn test_unknown_model() {
    assert_eq!(get_context_limit("unknown-model"), None);
    assert_eq!(get_context_limit(""), None);
}

#[test]
fn test_reasoning_models() {
    assert_eq!(get_context_limit("o1"), Some(128_000));
    assert_eq!(get_context_limit("o3"), Some(200_000));
    assert_eq!(get_context_limit("o3-mini"), Some(128_000));
    assert_eq!(get_context_limit("o4-mini"), Some(200_000));
}

#[test]
fn test_gemini_models() {
    assert_eq!(get_context_limit("gemini-1.5-pro"), Some(2_000_000));
    assert_eq!(get_context_limit("gemini-2.0-flash"), Some(1_000_000));
    assert_eq!(get_context_limit("gemini-2.5-pro"), Some(1_000_000));
    assert_eq!(get_context_limit("gemini-3-pro-preview"), Some(1_000_000));
}

#[test]
fn test_gpt5_models() {
    assert_eq!(get_context_limit("gpt-5.2"), Some(400_000));
    assert_eq!(get_context_limit("gpt-5.1"), Some(400_000));
    assert_eq!(get_context_limit("gpt-5"), Some(400_000));
    assert_eq!(get_context_limit("gpt-5-mini"), Some(400_000));
}

#[test]
fn test_gpt41_models() {
    assert_eq!(get_context_limit("gpt-4.1"), Some(1_000_000));
    assert_eq!(get_context_limit("gpt-4.1-mini"), Some(1_000_000));
}

#[test]
fn test_ollama_models() {
    assert_eq!(get_context_limit("llama4:scout"), Some(10_000_000));
    assert_eq!(get_context_limit("llama3.1"), Some(128_000));
    assert_eq!(get_context_limit("qwen3:8b"), Some(40_000));
    assert_eq!(get_context_limit("deepseek-r1"), Some(128_000));
    assert_eq!(get_context_limit("mistral-large"), Some(128_000));
}

#[test]
fn test_provider_prefixed_models() {
    // Models with provider prefix (e.g., from OpenRouter or gateway configs)
    assert_eq!(get_context_limit("openai/gpt-5.2"), Some(400_000));
    assert_eq!(get_context_limit("openai/gpt-4o"), Some(128_000));
    assert_eq!(
        get_context_limit("google/gemini-2.0-flash"),
        Some(1_000_000)
    );
}

#[test]
fn test_edge_cases() {
    // Empty string
    assert_eq!(get_context_limit(""), None);

    // Multiple slashes (takes last segment)
    assert_eq!(get_context_limit("provider/sub/gpt-4o"), Some(128_000));

    // Trailing slash (empty last segment)
    assert_eq!(get_context_limit("gpt-4o/"), None);

    // Just a slash
    assert_eq!(get_context_limit("/"), None);

    // Model with numbers that could match multiple prefixes
    assert_eq!(get_context_limit("gpt-4-32k-0613"), Some(32_768));
}

#[test]
fn longer_entries_win_over_shorter_ones() {
    // "gpt-4o" and "gpt-4" are both entries that this name begins with.
    assert_eq!(get_context_limit("gpt-4o-audio"), Some(128_000));
    assert_eq!(get_context_limit("gpt-4-0314"), Some(8_192));
}

#[test]
fn every_entry_has_its_own_limit() {
    for (name, limit) in model_context_limits() {
        assert_eq!(get_context_limit(name), Some(limit), "{name}");
        let prefixed = format!("some-provider/{name}");
        assert_eq!(get_context_limit(&prefixed), Some(limit), "{name}");
    }
}

#[test]
fn a_table_of_the_callers_own() {
    let table = vec![("house", 1_000), ("house-large", 2_000)];
    assert_eq!(get_context_limit_in("house-large-2", &table), Some(2_000));
    assert_eq!(get_context_limit_in("eu/house-small", &table), Some(1_000));
    assert_eq!(get_context_limit_in("gpt-4o", &table), None);
}
