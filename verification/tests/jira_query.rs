//! Query-key hashing tests.

use j9s::jira_query::{normalize_jql, JiraQueryKey};

#[test]
fn test_cache_hash_shape() {
    let k = JiraQueryKey::IssueSearch { jql: "project = TEST".to_string() };
    let h = k.cache_hash();
    assert_eq!(h.len(), 64);
    assert!(h.chars().all(|c| c.is_ascii_hexdigit() && !c.is_ascii_uppercase()));
}

#[test]
fn test_cache_hash_normalizes_jql() {
    let a = JiraQueryKey::IssueSearch { jql: "project = TEST".to_string() };
    let b = JiraQueryKey::IssueSearch { jql: "  PROJECT = test  ".to_string() };
    assert_eq!(a.cache_hash(), b.cache_hash());
}

#[test]
fn test_cache_hash_distinguishes_queries() {
    let a = JiraQueryKey::IssueSearch { jql: "project = A".to_string() };
    let b = JiraQueryKey::IssueSearch { jql: "project = B".to_string() };
    assert_ne!(a.cache_hash(), b.cache_hash());

    let c = JiraQueryKey::Boards { project: Some("A".to_string()) };
    assert_ne!(a.cache_hash(), c.cache_hash());
}

#[test]
fn test_cache_hash_is_stable() {
    let k = JiraQueryKey::BoardIssues { board_id: 17, jql: None };
    assert_eq!(k.cache_hash(), k.cache_hash());
}

#[test]
fn test_normalize_jql() {
    assert_eq!(normalize_jql("  Project = TEST "), "project = test");
    assert_eq!(normalize_jql(""), "");
}

#[test]
fn test_descriptions() {
    let k = JiraQueryKey::IssueSearch { jql: "project = X".to_string() };
    assert_eq!(k.description(), "issues: project = X");

    let k = JiraQueryKey::BoardIssues { board_id: 12, jql: None };
    assert_eq!(k.description(), "board 12 issues");

    let k = JiraQueryKey::BoardIssues { board_id: 12, jql: Some("x".to_string()) };
    assert_eq!(k.description(), "board 12 issues: x");

    let k = JiraQueryKey::Boards { project: None };
    assert_eq!(k.description(), "all boards");

    let k = JiraQueryKey::Boards { project: Some("P".to_string()) };
    assert_eq!(k.description(), "boards for project P");

    let k = JiraQueryKey::IssueDetail { key: "X-1".to_string() };
    assert_eq!(k.description(), "issue X-1");
}
