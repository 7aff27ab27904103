//! Autocomplete suggestion tests.

use j9s::commands::{all_commands, get_suggestions};

#[test]
fn test_empty_input_returns_all() {
    let suggestions = get_suggestions("");
    assert_eq!(suggestions.len(), all_commands().len());
}

#[test]
fn test_exact_match() {
    let suggestions = get_suggestions("issues");
    assert!(!suggestions.is_empty());
    assert_eq!(suggestions[0].name, "issues");
}

#[test]
fn test_alias_match() {
    let suggestions = get_suggestions("i");
    assert!(!suggestions.is_empty());
    assert_eq!(suggestions[0].name, "issues");
}

#[test]
fn test_prefix_match() {
    let suggestions = get_suggestions("iss");
    assert!(!suggestions.is_empty());
    assert_eq!(suggestions[0].name, "issues");
}

#[test]
fn test_fuzzy_match() {
    let suggestions = get_suggestions("sue");
    assert!(!suggestions.is_empty());
    assert_eq!(suggestions[0].name, "issues");
}

#[test]
fn test_case_insensitive_match() {
    let suggestions = get_suggestions("ISSUES");
    assert!(!suggestions.is_empty());
    assert_eq!(suggestions[0].name, "issues");
}

#[test]
fn test_no_match_is_empty() {
    let suggestions = get_suggestions("zzz");
    assert!(suggestions.is_empty());
}
