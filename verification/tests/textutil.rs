//! Text helper tests.

use j9s::textutil::{extract_domain, status_color, truncate, StatusColor};

#[test]
fn test_truncate_short_string() {
    assert_eq!(truncate("hello", 10), "hello");
}

#[test]
fn test_truncate_exact_length() {
    assert_eq!(truncate("hello", 5), "hello");
}

#[test]
fn test_truncate_long_string() {
    assert_eq!(truncate("hello world", 8), "hello...");
}

#[test]
fn test_truncate_tiny_limit() {
    assert_eq!(truncate("hello", 2), "...");
}

#[test]
fn test_status_color_done() {
    assert_eq!(status_color("Done"), StatusColor::Green);
    assert_eq!(status_color("Closed"), StatusColor::Green);
    assert_eq!(status_color("Resolved"), StatusColor::Green);
}

#[test]
fn test_status_color_in_progress() {
    assert_eq!(status_color("In Progress"), StatusColor::Yellow);
    assert_eq!(status_color("In Review"), StatusColor::Yellow);
}

#[test]
fn test_status_color_default() {
    assert_eq!(status_color("To Do"), StatusColor::White);
    assert_eq!(status_color("Open"), StatusColor::White);
}

#[test]
fn test_extract_domain() {
    assert_eq!(
        extract_domain("https://foo.atlassian.net"),
        "foo.atlassian.net"
    );
    assert_eq!(
        extract_domain("https://jira.company.com/rest"),
        "jira.company.com"
    );
    assert_eq!(extract_domain("http://localhost:8080"), "localhost:8080");
}
