//! Offline-first caching and asynchronous query engine for a terminal
//! issue-tracker client.
//!
//! The crate centres on three verified components:
//! - a storage engine for cached entities and query results
//!   ([`storage`]), mirroring a relational schema of entity, query and
//!   membership records;
//! - a cache orchestration layer ([`layer`]) that decides, per request,
//!   whether to serve fresh cache, refresh over the network, merge an
//!   incremental result, or fall back to stale data when offline;
//! - a pollable query state machine ([`query`]) that lets a single-threaded
//!   UI drive background fetches without blocking.
//!
//! Domain types, query-key hashing and the small UI-independent helpers
//! (command suggestions, list filtering, text-input editing) round out the
//! library.

pub mod api_types;
pub mod cache;
pub mod codec;
pub mod config;
pub mod commands;
pub mod events;
pub mod filters;
pub mod input;
pub mod jira_query;
pub mod jira_types;
pub mod layer;
pub mod query;
pub mod storage;
pub mod strutil;
pub mod textutil;
