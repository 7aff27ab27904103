//! Query state machine tests.

use j9s::query::{Delivery, Query, QueryState};

#[test]
fn test_query_success() {
    let mut query: Query<Vec<i32>> = Query::new();

    assert!(matches!(query.state(), QueryState::Idle));

    query.fetch();
    assert!(query.is_loading());

    let attempt = query.current_attempt();
    assert!(query.poll(attempt, Delivery::Done(Ok(vec![1, 2, 3])), 10));
    assert!(query.is_success());
    assert_eq!(query.data(), Some(&vec![1, 2, 3]));
}

#[test]
fn test_query_error() {
    let mut query: Query<i32> = Query::new();

    query.fetch();
    let attempt = query.current_attempt();

    assert!(query.poll(
        attempt,
        Delivery::Done(Err("Something went wrong".to_string())),
        10
    ));
    assert!(query.is_error());
    assert_eq!(query.error(), Some("Something went wrong"));
}

#[test]
fn test_query_stale() {
    let mut query: Query<i32> = Query::new().with_stale_time(0);

    query.fetch();
    let attempt = query.current_attempt();
    query.poll(attempt, Delivery::Done(Ok(42)), 10);

    // With zero stale time, the data is stale as soon as any time passes.
    assert!(query.is_stale(11));
    assert!(!query.is_stale(10));
}

#[test]
fn test_fetch_while_loading_is_noop() {
    let mut query: Query<i32> = Query::new();

    assert!(query.fetch());
    assert!(query.is_loading());
    let attempt = query.current_attempt();

    // Second fetch should be a no-op: no new attempt is scheduled.
    assert!(!query.fetch());
    assert!(query.is_loading());
    assert_eq!(query.current_attempt(), attempt);
}

#[test]
fn test_refetch_cancels_pending() {
    let mut query: Query<u32> = Query::new();

    query.fetch();
    let first = query.current_attempt();

    // Refetch abandons the first attempt and starts a new one.
    query.refetch();
    let second = query.current_attempt();
    assert_ne!(first, second);

    // The second attempt resolves first and is observed.
    assert!(query.poll(second, Delivery::Done(Ok(1)), 100));
    assert_eq!(query.data(), Some(&1));

    // The first attempt's late result is dropped unseen.
    assert!(!query.poll(first, Delivery::Done(Ok(0)), 100));
    assert_eq!(query.data(), Some(&1));
}

#[test]
fn test_closed_channel_is_cancellation() {
    let mut query: Query<i32> = Query::new();
    query.fetch();
    let attempt = query.current_attempt();

    assert!(query.poll(attempt, Delivery::Closed, 5));
    assert!(query.is_error());
    assert_eq!(query.error(), Some("Query was cancelled"));
}

#[test]
fn test_pending_delivery_changes_nothing() {
    let mut query: Query<i32> = Query::new();
    query.fetch();
    let attempt = query.current_attempt();

    assert!(!query.poll(attempt, Delivery::Pending, 5));
    assert!(query.is_loading());
}
