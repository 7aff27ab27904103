//! Cache engine tests: storage round trips, merge semantics, and the
//! fresh / stale / offline / incremental policy.

use std::cell::Cell;
use std::rc::Rc;

use j9s::cache::{CacheSource, decode_entity, encode_entity};
use j9s::jira_types::{Board, IssueSummary};
use j9s::layer::CacheLayer;
use j9s::storage::{CacheStorage, MemoryStorage, NoopStorage};

fn issue(key: &str, summary: &str, updated: &str) -> IssueSummary {
    IssueSummary {
        key: key.to_string(),
        summary: summary.to_string(),
        status: "To Do".to_string(),
        status_id: "1".to_string(),
        issue_type: "Task".to_string(),
        assignee: None,
        priority: Some("High".to_string()),
        epic: None,
        updated: updated.to_string(),
    }
}

#[test]
fn test_entity_store_round_trip() {
    let mut storage = MemoryStorage::new();
    let a = issue("TEST-1", "First", "2024-01-01");
    storage.store_entity(&a, 100).unwrap();

    let got = storage.get_entity::<IssueSummary>("TEST-1").unwrap();
    assert_eq!(got.cached_at, 100);
    assert_eq!(got.entity.key, a.key);
    assert_eq!(got.entity.summary, a.summary);
    assert_eq!(got.entity.status, a.status);
    assert_eq!(got.entity.assignee, a.assignee);
    assert_eq!(got.entity.priority, a.priority);
    assert_eq!(got.entity.updated, a.updated);
}

#[test]
fn test_codec_round_trip() {
    let a = issue("TEST-9", "Some text with ünïcode", "2024-02-02");
    let bytes = encode_entity(&a);
    let back: IssueSummary = decode_entity(&bytes).unwrap();
    assert_eq!(back.key, a.key);
    assert_eq!(back.summary, a.summary);
    assert_eq!(back.priority, a.priority);

    let b = Board { id: 42, name: "Sprint board".to_string(), board_type: "scrum".to_string() };
    let bytes = encode_entity(&b);
    let back: Board = decode_entity(&bytes).unwrap();
    assert_eq!(back.id, 42);
    assert_eq!(back.name, "Sprint board");
    assert_eq!(back.board_type, "scrum");
}

#[test]
fn test_corrupt_payload_reads_as_miss() {
    let bytes = vec![7u8, 1, 2, 3];
    assert!(decode_entity::<IssueSummary>(&bytes).is_none());
}

#[test]
fn test_query_result_round_trip() {
    let mut storage = MemoryStorage::new();
    let a = issue("TEST-1", "First", "2024-01-01");
    let b = issue("TEST-2", "Second", "2024-01-02");
    storage.store_query_result("q1", &vec![a, b], 50).unwrap();

    let got = storage.get_query_result::<IssueSummary>("q1").unwrap();
    assert_eq!(got.cached_at, 50);
    assert_eq!(got.max_updated, Some("2024-01-02".to_string()));
    assert_eq!(got.entities.len(), 2);
    assert_eq!(got.entities[0].key, "TEST-1");
    assert_eq!(got.entities[1].key, "TEST-2");
}

#[test]
fn test_merge_new_entity_prepends() {
    let mut storage = MemoryStorage::new();
    let a = issue("1", "A", "t1");
    storage.store_query_result("q", &vec![a], 10).unwrap();

    let b = issue("2", "B", "t2");
    storage.merge_query_result("q", &vec![b], 20).unwrap();

    let got = storage.get_query_result::<IssueSummary>("q").unwrap();
    let keys: Vec<&str> = got.entities.iter().map(|e| e.key.as_str()).collect();
    assert_eq!(keys, vec!["2", "1"]);
}

#[test]
fn test_merge_updates_in_place() {
    let mut storage = MemoryStorage::new();
    let a1 = issue("1", "A v1", "t1");
    let b1 = issue("2", "B v1", "t1");
    storage.store_query_result("q", &vec![a1, b1], 10).unwrap();

    let a2 = issue("1", "A v2", "t2");
    storage.merge_query_result("q", &vec![a2], 20).unwrap();

    let got = storage.get_query_result::<IssueSummary>("q").unwrap();
    assert_eq!(got.entities.len(), 2);
    assert_eq!(got.entities[0].key, "1");
    assert_eq!(got.entities[0].summary, "A v2");
    assert_eq!(got.entities[1].key, "2");
    assert_eq!(got.entities[1].summary, "B v1");
}

#[test]
fn test_noop_storage_never_hits() {
    let mut storage = NoopStorage;
    let a = issue("TEST-1", "First", "2024-01-01");
    storage.store_entity(&a, 100).unwrap();
    storage
        .store_query_result("q", &vec![issue("TEST-2", "x", "t")], 100)
        .unwrap();
    assert!(storage.get_entity::<IssueSummary>("TEST-1").is_none());
    assert!(storage.get_query_result::<IssueSummary>("q").is_none());
    assert!(storage.get_max_updated("q").is_none());
}

#[test]
fn test_fresh_cache_skips_fetcher() {
    let mut layer = CacheLayer::new(MemoryStorage::new());
    let seeded = layer
        .fetch_list("q", 1000, || Ok(vec![issue("TEST-1", "First", "t1")]))
        .unwrap();
    assert_eq!(seeded.source, CacheSource::Network);

    // Within the stale time the fetcher must not run.
    let calls = Rc::new(Cell::new(0u32));
    let c = calls.clone();
    let got = layer
        .fetch_list::<IssueSummary, _>("q", 1000 + 300, move || {
            c.set(c.get() + 1);
            Ok(vec![])
        })
        .unwrap();
    assert_eq!(calls.get(), 0);
    assert_eq!(got.source, CacheSource::CacheFresh);
    assert_eq!(got.cached_at, Some(1000));
    assert_eq!(got.data.len(), 1);
    assert_eq!(got.data[0].key, "TEST-1");
}

#[test]
fn test_stale_cache_fetches_once() {
    let mut layer = CacheLayer::new(MemoryStorage::new());
    layer
        .fetch_list("q", 1000, || Ok(vec![issue("TEST-1", "First", "t1")]))
        .unwrap();

    let calls = Rc::new(Cell::new(0u32));
    let c = calls.clone();
    let got = layer
        .fetch_list::<IssueSummary, _>("q", 1000 + 301, move || {
            c.set(c.get() + 1);
            Ok(vec![issue("TEST-2", "Second", "t2")])
        })
        .unwrap();
    assert_eq!(calls.get(), 1);
    assert_eq!(got.source, CacheSource::Network);
    assert_eq!(got.data.len(), 1);
    assert_eq!(got.data[0].key, "TEST-2");
}

#[test]
fn test_offline_fallback_serves_stale_data() {
    let mut layer = CacheLayer::new(MemoryStorage::new());
    layer
        .fetch_list("q", 1000, || Ok(vec![issue("TEST-1", "First", "t1")]))
        .unwrap();

    let got = layer
        .fetch_list::<IssueSummary, _>("q", 1000 + 301, || Err("network down".to_string()))
        .unwrap();
    assert_eq!(got.source, CacheSource::Offline);
    assert_eq!(got.cached_at, Some(1000));
    assert_eq!(got.data.len(), 1);
    assert_eq!(got.data[0].key, "TEST-1");
}

#[test]
fn test_cold_start_propagates_error() {
    let mut layer = CacheLayer::new(MemoryStorage::new());
    let got = layer.fetch_list::<IssueSummary, _>("q", 1000, || Err("network down".to_string()));
    assert_eq!(got.unwrap_err(), "network down");
}

#[test]
fn test_fetch_one_policy() {
    let mut layer = CacheLayer::new(MemoryStorage::new());

    // Miss + failure propagates.
    let r = layer.fetch_one::<IssueSummary, _>("TEST-1", 0, || Err("down".to_string()));
    assert!(r.is_err());

    // Network success is stored.
    let r = layer
        .fetch_one::<IssueSummary, _>("TEST-1", 0, || Ok(issue("TEST-1", "First", "t1")))
        .unwrap();
    assert_eq!(r.source, CacheSource::Network);

    // Fresh hit without a fetch.
    let r = layer
        .fetch_one::<IssueSummary, _>("TEST-1", 100, || Err("down".to_string()))
        .unwrap();
    assert_eq!(r.source, CacheSource::CacheFresh);
    assert_eq!(r.data.key, "TEST-1");

    // Stale hit with failure degrades to offline.
    let r = layer
        .fetch_one::<IssueSummary, _>("TEST-1", 1000, || Err("down".to_string()))
        .unwrap();
    assert_eq!(r.source, CacheSource::Offline);
}

#[test]
fn test_incremental_passes_high_water_mark() {
    let mut layer = CacheLayer::new(MemoryStorage::new());
    layer
        .fetch_incremental("q", 1000, |mark: Option<String>| {
            assert!(mark.is_none());
            Ok(vec![issue("1", "A", "t1"), issue("2", "B", "t2")])
        })
        .unwrap();

    let got = layer
        .fetch_incremental::<IssueSummary, _>("q", 1000 + 301, |mark| {
            assert_eq!(mark, Some("t2".to_string()));
            Ok(vec![issue("3", "C", "t3")])
        })
        .unwrap();
    assert_eq!(got.source, CacheSource::Network);
    let keys: Vec<&str> = got.data.iter().map(|e| e.key.as_str()).collect();
    assert_eq!(keys, vec!["3", "1", "2"]);
}

#[test]
fn test_empty_incremental_refreshes_cached_at() {
    let mut layer = CacheLayer::new(MemoryStorage::new());
    layer
        .fetch_incremental("q", 1000, |_mark: Option<String>| {
            Ok(vec![issue("1", "A", "t1")])
        })
        .unwrap();

    // Stale; the fetcher reports nothing changed.
    let got = layer
        .fetch_incremental::<IssueSummary, _>("q", 1000 + 301, |_mark| Ok(vec![]))
        .unwrap();
    assert_eq!(got.source, CacheSource::CacheFresh);
    assert_eq!(got.cached_at, Some(1000 + 301));
    assert_eq!(got.data.len(), 1);
    assert_eq!(got.data[0].key, "1");

    // A subsequent call within the stale time is served from cache.
    let calls = Rc::new(Cell::new(0u32));
    let c = calls.clone();
    let got = layer
        .fetch_incremental::<IssueSummary, _>("q", 1000 + 302, move |_mark| {
            c.set(c.get() + 1);
            Ok(vec![])
        })
        .unwrap();
    assert_eq!(calls.get(), 0);
    assert_eq!(got.source, CacheSource::CacheFresh);
    assert_eq!(got.data.len(), 1);
}

#[test]
fn test_incremental_offline_fallback() {
    let mut layer = CacheLayer::new(MemoryStorage::new());
    layer
        .fetch_incremental("q", 0, |_mark: Option<String>| {
            Ok(vec![issue("1", "A", "t1")])
        })
        .unwrap();

    let got = layer
        .fetch_incremental::<IssueSummary, _>("q", 1000, |_mark| Err("down".to_string()))
        .unwrap();
    assert_eq!(got.source, CacheSource::Offline);
    assert_eq!(got.data.len(), 1);
}

#[test]
fn test_custom_stale_time() {
    let mut layer = CacheLayer::new(MemoryStorage::new()).with_stale_time(10);
    layer
        .fetch_list("q", 0, || Ok(vec![issue("1", "A", "t1")]))
        .unwrap();

    let fresh = layer
        .fetch_list::<IssueSummary, _>("q", 10, || Err("down".to_string()))
        .unwrap();
    assert_eq!(fresh.source, CacheSource::CacheFresh);

    let stale = layer
        .fetch_list::<IssueSummary, _>("q", 11, || Err("down".to_string()))
        .unwrap();
    assert_eq!(stale.source, CacheSource::Offline);
}

#[test]
fn test_board_key_is_decimal_id() {
    let mut storage = MemoryStorage::new();
    let b = Board { id: 7, name: "Board".to_string(), board_type: "kanban".to_string() };
    storage.store_entity(&b, 0).unwrap();
    let got = storage.get_entity::<Board>("7").unwrap();
    assert_eq!(got.entity.id, 7);
    assert!(storage.get_entity::<Board>("8").is_none());
}

#[test]
fn test_duplicate_keys_collapse_to_last() {
    let mut storage = MemoryStorage::new();
    let a1 = issue("1", "first version", "t1");
    let b = issue("2", "other", "t1");
    let a2 = issue("1", "second version", "t2");
    storage.store_query_result("q", &vec![a1, b, a2], 5).unwrap();

    let got = storage.get_query_result::<IssueSummary>("q").unwrap();
    assert_eq!(got.entities.len(), 2);
    assert_eq!(got.entities[0].key, "2");
    assert_eq!(got.entities[1].key, "1");
    assert_eq!(got.entities[1].summary, "second version");
}
