//! Events produced by background work, and the generic result of component
//! key handling.

use vstd::prelude::*;
use crate::jira_types::{Board, BoardConfiguration, Issue, IssueSummary, QuickFilter};

verus! {

/// Results arriving from remote-service operations.
#[derive(Debug)]
pub enum JiraEvent {
    /// Issues loaded.
    IssuesLoaded(Vec<IssueSummary>),
    /// A single issue loaded with details.
    IssueLoaded(Box<Issue>),
    /// Boards loaded.
    BoardsLoaded(Vec<Board>),
    /// A board's data loaded: issues, configuration and quick filters.
    BoardDataLoaded {
        board_id: u64,
        board_name: String,
        issues: Vec<IssueSummary>,
        config: BoardConfiguration,
        filters: Vec<QuickFilter>,
    },
    /// Loading started (for a spinner).
    Loading,
}

/// Generic result of component key handling: consumed, consumed with an
/// event for the parent, or left for the next handler.
#[derive(Debug, Clone, PartialEq, Eq)]
pub enum KeyResult<T> {
    /// Key was consumed; nothing for the parent to handle.
    Handled,
    /// Key was consumed; the parent should process this event.
    Event(T),
    /// Key was not consumed; the parent should try the next handler.
    NotHandled,
}

} // verus!
