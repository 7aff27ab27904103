//! Issue filtering tests.

use j9s::filters::{FilterSource, IssueFilterField};
use j9s::jira_types::IssueSummary;

fn test_issues() -> Vec<IssueSummary> {
    vec![
        IssueSummary {
            key: "TEST-1".to_string(),
            summary: "First issue".to_string(),
            status: "To Do".to_string(),
            status_id: "1".to_string(),
            issue_type: "Bug".to_string(),
            assignee: Some("Alice".to_string()),
            priority: Some("High".to_string()),
            epic: Some("Epic-1".to_string()),
            updated: "2024-01-01".to_string(),
        },
        IssueSummary {
            key: "TEST-2".to_string(),
            summary: "Second issue".to_string(),
            status: "In Progress".to_string(),
            status_id: "2".to_string(),
            issue_type: "Task".to_string(),
            assignee: Some("Bob".to_string()),
            priority: Some("Low".to_string()),
            epic: None,
            updated: "2024-01-02".to_string(),
        },
        IssueSummary {
            key: "TEST-3".to_string(),
            summary: "Third issue".to_string(),
            status: "To Do".to_string(),
            status_id: "1".to_string(),
            issue_type: "Task".to_string(),
            assignee: None,
            priority: None,
            epic: Some("Epic-1".to_string()),
            updated: "2024-01-03".to_string(),
        },
    ]
}

#[test]
fn test_unique_values_assignee() {
    let issues = test_issues();
    let filter = IssueFilterField::Assignee;
    let values = filter.unique_values(&issues);

    // Should have: None (unassigned), Alice, Bob - with None first
    assert_eq!(values.len(), 3);
    assert_eq!(values[0], None);
    assert!(values.contains(&Some("Alice".to_string())));
    assert!(values.contains(&Some("Bob".to_string())));
}

#[test]
fn test_unique_values_status() {
    let issues = test_issues();
    let filter = IssueFilterField::Status;
    let values = filter.unique_values(&issues);

    // Should have: In Progress, To Do (alphabetically sorted)
    assert_eq!(values.len(), 2);
    assert!(values.contains(&Some("To Do".to_string())));
    assert!(values.contains(&Some("In Progress".to_string())));
}

#[test]
fn test_filter_by_assignee() {
    let issues = test_issues();
    let filter = IssueFilterField::Assignee;

    // Filter to Alice
    let alice = Some("Alice".to_string());
    let filtered = filter.filter(&issues, Some(&alice));
    assert_eq!(filtered.len(), 1);
    assert_eq!(filtered[0].key, "TEST-1");

    // Filter to unassigned
    let filtered = filter.filter(&issues, Some(&None));
    assert_eq!(filtered.len(), 1);
    assert_eq!(filtered[0].key, "TEST-3");
}

#[test]
fn test_filter_all() {
    let issues = test_issues();
    let filter = IssueFilterField::Assignee;

    // "All" returns everything
    let filtered = filter.filter(&issues, None);
    assert_eq!(filtered.len(), 3);
}

#[test]
fn test_none_filter_is_inactive() {
    let filter = IssueFilterField::NoFilter;
    assert!(!filter.is_active());

    let issues = test_issues();
    assert!(filter.unique_values(&issues).is_empty());
}

#[test]
fn test_unique_values_sorted() {
    let issues = test_issues();
    let filter = IssueFilterField::Status;
    let values = filter.unique_values(&issues);
    assert_eq!(values[0], Some("In Progress".to_string()));
    assert_eq!(values[1], Some("To Do".to_string()));
}
