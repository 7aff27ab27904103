//! Cache storage: the backend contract, a verified in-memory engine, and a
//! no-op engine for caching-disabled mode.
//!
//! The durable state mirrors a relational schema: entity records keyed by
//! `(entity_type, entity_key)`, and query records keyed by a query hash, each
//! carrying the ordered member keys of its last result set. A persistent
//! backend (see the application crate) keeps the same records in a database
//! file; the decision logic in [`crate::layer`] is verified against the
//! contracts stated here.

use vstd::prelude::*;
use crate::cache::{Cacheable, decode_entity, encode_entity, opt_view, seq_views, spec_decode_of,
    spec_encode_of};
use crate::strutil::{lex_lt, str_eq, chars_lt, string_chars};

verus! {

/// One entity record: `(entity_type, entity_key) -> (payload, updated_at,
/// cached_at)`.
pub struct EntityRow {
    pub entity_type: String,
    pub entity_key: String,
    pub data: Vec<u8>,
    pub updated_at: Option<String>,
    pub cached_at: i64,
}

/// Mathematical image of an [`EntityRow`].
#[verifier::ext_equal]
pub struct EntityRowView {
    pub entity_type: Seq<char>,
    pub entity_key: Seq<char>,
    pub data: Seq<u8>,
    pub updated_at: Option<Seq<char>>,
    pub cached_at: int,
}

impl View for EntityRow {
    type V = EntityRowView;

    open spec fn view(&self) -> EntityRowView {
        EntityRowView {
            entity_type: self.entity_type@,
            entity_key: self.entity_key@,
            data: self.data@,
            updated_at: opt_view(self.updated_at),
            cached_at: self.cached_at as int,
        }
    }
}

impl DeepView for EntityRow {
    type V = EntityRowView;

    open spec fn deep_view(&self) -> EntityRowView {
        self.view()
    }
}

/// One query record: `query_hash -> (description, entity_type, max_updated,
/// cached_at, ordered member keys)`.
pub struct QueryRow {
    pub query_hash: String,
    pub description: String,
    pub entity_type: String,
    pub max_updated: Option<String>,
    pub cached_at: i64,
    pub members: Vec<String>,
}

/// Mathematical image of a [`QueryRow`].
#[verifier::ext_equal]
pub struct QueryRowView {
    pub query_hash: Seq<char>,
    pub description: Seq<char>,
    pub entity_type: Seq<char>,
    pub max_updated: Option<Seq<char>>,
    pub cached_at: int,
    pub members: Seq<Seq<char>>,
}

impl View for QueryRow {
    type V = QueryRowView;

    open spec fn view(&self) -> QueryRowView {
        QueryRowView {
            query_hash: self.query_hash@,
            description: self.description@,
            entity_type: self.entity_type@,
            max_updated: opt_view(self.max_updated),
            cached_at: self.cached_at as int,
            members: self.members.deep_view(),
        }
    }
}

impl DeepView for QueryRow {
    type V = QueryRowView;

    open spec fn deep_view(&self) -> QueryRowView {
        self.view()
    }
}

// ---------------------------------------------------------------------------
// Model-level lookups and updates
// ---------------------------------------------------------------------------

/// First entity record with the given type and key.
pub open spec fn find_entity(
    rows: Seq<EntityRowView>,
    et: Seq<char>,
    key: Seq<char>,
) -> Option<EntityRowView>
    decreases rows.len(),
{
    if rows.len() == 0 {
        None
    } else if rows[0].entity_type == et && rows[0].entity_key == key {
        Some(rows[0])
    } else {
        find_entity(rows.drop_first(), et, key)
    }
}

/// First query record with the given hash.
pub open spec fn find_query(rows: Seq<QueryRowView>, qh: Seq<char>) -> Option<QueryRowView>
    decreases rows.len(),
{
    if rows.len() == 0 {
        None
    } else if rows[0].query_hash == qh {
        Some(rows[0])
    } else {
        find_query(rows.drop_first(), qh)
    }
}

/// Replace the first record with `row`'s type and key, or append `row`.
pub open spec fn upsert_entity(rows: Seq<EntityRowView>, row: EntityRowView) -> Seq<EntityRowView>
    decreases rows.len(),
{
    if rows.len() == 0 {
        seq![row]
    } else if rows[0].entity_type == row.entity_type && rows[0].entity_key == row.entity_key {
        seq![row] + rows.drop_first()
    } else {
        seq![rows[0]] + upsert_entity(rows.drop_first(), row)
    }
}

/// Replace the first record with `row`'s hash, or append `row`.
pub open spec fn upsert_query(rows: Seq<QueryRowView>, row: QueryRowView) -> Seq<QueryRowView>
    decreases rows.len(),
{
    if rows.len() == 0 {
        seq![row]
    } else if rows[0].query_hash == row.query_hash {
        seq![row] + rows.drop_first()
    } else {
        seq![rows[0]] + upsert_query(rows.drop_first(), row)
    }
}

/// An upsert makes its own record findable.
pub proof fn lemma_find_upserted_entity(rows: Seq<EntityRowView>, row: EntityRowView)
    ensures
        find_entity(upsert_entity(rows, row), row.entity_type, row.entity_key) == Some(row),
    decreases rows.len(),
{
    if rows.len() > 0 && !(rows[0].entity_type == row.entity_type && rows[0].entity_key
        == row.entity_key) {
        lemma_find_upserted_entity(rows.drop_first(), row);
        assert((seq![rows[0]] + upsert_entity(rows.drop_first(), row)).drop_first()
            =~= upsert_entity(rows.drop_first(), row));
    }
}

// ---------------------------------------------------------------------------
// Typed views of the model
// ---------------------------------------------------------------------------

/// The entity record an entity with view `v` is stored as at time `now`.
pub open spec fn spec_row_of<T: Cacheable>(v: T::V, now: int) -> EntityRowView {
    EntityRowView {
        entity_type: T::spec_entity_type(),
        entity_key: T::spec_key_of(v),
        data: spec_encode_of::<T>(v),
        updated_at: T::spec_updated_of(v),
        cached_at: now,
    }
}

/// Some entity in `items` has cache key `k`.
pub open spec fn spec_has_key<T: Cacheable>(items: Seq<T::V>, k: Seq<char>) -> bool {
    exists|i: int| 0 <= i < items.len() && T::spec_key_of(#[trigger] items[i]) == k
}

/// Deduplicate by cache key, keeping each key's last occurrence, in the order
/// of last occurrences. (A relational store keyed by `(type, key)` collapses
/// duplicates the same way.)
pub open spec fn spec_dedup<T: Cacheable>(items: Seq<T::V>) -> Seq<T::V>
    decreases items.len(),
{
    if items.len() == 0 {
        Seq::empty()
    } else {
        let rest = spec_dedup::<T>(items.drop_first());
        if spec_has_key::<T>(rest, T::spec_key_of(items[0])) {
            rest
        } else {
            seq![items[0]] + rest
        }
    }
}

/// The cache keys of a list of entities, in order.
pub open spec fn spec_keys_of<T: Cacheable>(items: Seq<T::V>) -> Seq<Seq<char>> {
    Seq::new(items.len(), |i: int| T::spec_key_of(items[i]))
}

/// The larger of two optional version stamps.
pub open spec fn spec_max_opt(a: Option<Seq<char>>, b: Option<Seq<char>>) -> Option<Seq<char>> {
    match (a, b) {
        (None, x) => x,
        (x, None) => x,
        (Some(u), Some(w)) => if lex_lt(u, w) {
            Some(w)
        } else {
            Some(u)
        },
    }
}

/// The maximum `updated_at` among a list of entities, ignoring absent stamps.
pub open spec fn spec_max_updated<T: Cacheable>(items: Seq<T::V>) -> Option<Seq<char>>
    decreases items.len(),
{
    if items.len() == 0 {
        None
    } else {
        spec_max_opt(T::spec_updated_of(items[0]), spec_max_updated::<T>(items.drop_first()))
    }
}

/// The records of a list of entities, in order.
pub open spec fn rows_of<T: Cacheable>(items: Seq<T::V>, now: int) -> Seq<EntityRowView> {
    Seq::new(items.len(), |i: int| spec_row_of::<T>(items[i], now))
}

/// Upsert a list of records, left to right.
pub open spec fn spec_upsert_rows(
    rows: Seq<EntityRowView>,
    list: Seq<EntityRowView>,
) -> Seq<EntityRowView>
    decreases list.len(),
{
    if list.len() == 0 {
        rows
    } else {
        spec_upsert_rows(upsert_entity(rows, list[0]), list.drop_first())
    }
}

/// Some record in `rows` has entity key `k`.
pub open spec fn has_row_key(rows: Seq<EntityRowView>, k: Seq<char>) -> bool {
    exists|i: int| 0 <= i < rows.len() && (#[trigger] rows[i]).entity_key == k
}

/// Replace the first record whose entity key matches `row`'s.
pub open spec fn replace_row(rows: Seq<EntityRowView>, row: EntityRowView) -> Seq<EntityRowView>
    decreases rows.len(),
{
    if rows.len() == 0 {
        rows
    } else if rows[0].entity_key == row.entity_key {
        seq![row] + rows.drop_first()
    } else {
        seq![rows[0]] + replace_row(rows.drop_first(), row)
    }
}

/// Merge one record into a result list: replace in place if its key is
/// present, else prepend (most recently changed entities surface first).
pub open spec fn merge_step(rows: Seq<EntityRowView>, row: EntityRowView) -> Seq<EntityRowView> {
    if has_row_key(rows, row.entity_key) {
        replace_row(rows, row)
    } else {
        seq![row] + rows
    }
}

/// Merge a list of new records into a result list, left to right.
pub open spec fn spec_merge_rows(
    olds: Seq<EntityRowView>,
    news: Seq<EntityRowView>,
) -> Seq<EntityRowView>
    decreases news.len(),
{
    if news.len() == 0 {
        olds
    } else {
        spec_merge_rows(merge_step(olds, news[0]), news.drop_first())
    }
}

/// A record with its `cached_at` replaced.
pub open spec fn row_at_time(r: EntityRowView, now: int) -> EntityRowView {
    EntityRowView {
        entity_type: r.entity_type,
        entity_key: r.entity_key,
        data: r.data,
        updated_at: r.updated_at,
        cached_at: now,
    }
}

/// The record a single member key contributes to a merge: the found record
/// stamped `now`, kept only when it decodes.
pub open spec fn existing_one<T: Cacheable>(
    es: Seq<EntityRowView>,
    key: Seq<char>,
    now: int,
) -> Seq<EntityRowView> {
    match find_entity(es, T::spec_entity_type(), key) {
        None => Seq::empty(),
        Some(r) => if spec_decode_of::<T>(r.data) is Some {
            seq![row_at_time(r, now)]
        } else {
            Seq::empty()
        },
    }
}

/// The existing records of a query's result set: member keys joined against
/// the entity records, keeping only records that decode, stamped `now`.
pub open spec fn spec_existing_rows<T: Cacheable>(
    es: Seq<EntityRowView>,
    members: Seq<Seq<char>>,
    now: int,
) -> Seq<EntityRowView>
    decreases members.len(),
{
    if members.len() == 0 {
        Seq::empty()
    } else {
        existing_one::<T>(es, members[0], now) + spec_existing_rows::<T>(
            es,
            members.drop_first(),
            now,
        )
    }
}

/// The entity keys of a list of records, in order.
pub open spec fn keys_of_rows(rows: Seq<EntityRowView>) -> Seq<Seq<char>> {
    Seq::new(rows.len(), |i: int| rows[i].entity_key)
}

/// The maximum `updated_at` among a list of records.
pub open spec fn max_of_rows(rows: Seq<EntityRowView>) -> Option<Seq<char>>
    decreases rows.len(),
{
    if rows.len() == 0 {
        None
    } else {
        spec_max_opt(rows[0].updated_at, max_of_rows(rows.drop_first()))
    }
}

/// The member keys recorded for a query, or empty when none is recorded.
pub open spec fn members_of(queries: Seq<QueryRowView>, qh: Seq<char>) -> Seq<Seq<char>> {
    match find_query(queries, qh) {
        Some(q) => q.members,
        None => Seq::empty(),
    }
}

/// The query record written when records `merged` are stored under `qh`.
pub open spec fn spec_query_row_of_rows<T: Cacheable>(
    qh: Seq<char>,
    merged: Seq<EntityRowView>,
    now: int,
) -> QueryRowView {
    QueryRowView {
        query_hash: qh,
        description: qh,
        entity_type: T::spec_entity_type(),
        max_updated: max_of_rows(merged),
        cached_at: now,
        members: keys_of_rows(merged),
    }
}

/// The query record written when `items` is stored under `qh` at `now`.
pub open spec fn spec_query_row_of<T: Cacheable>(
    qh: Seq<char>,
    items: Seq<T::V>,
    now: int,
) -> QueryRowView {
    QueryRowView {
        query_hash: qh,
        description: qh,
        entity_type: T::spec_entity_type(),
        max_updated: spec_max_updated::<T>(items),
        cached_at: now,
        members: spec_keys_of::<T>(spec_dedup::<T>(items)),
    }
}

/// Single-entity lookup: find the record, decode its payload; a record that
/// fails to decode reads as a miss.
pub open spec fn spec_entity_lookup<T: Cacheable>(
    rows: Seq<EntityRowView>,
    key: Seq<char>,
) -> Option<(T::V, int)> {
    match find_entity(rows, T::spec_entity_type(), key) {
        None => None,
        Some(r) => match spec_decode_of::<T>(r.data) {
            Some(v) => Some((v, r.cached_at)),
            None => None,
        },
    }
}

/// The entities a single member key contributes: the decoded record, or
/// nothing when the record is missing or fails to decode.
pub open spec fn join_one<T: Cacheable>(rows: Seq<EntityRowView>, key: Seq<char>) -> Seq<T::V> {
    match find_entity(rows, T::spec_entity_type(), key) {
        None => Seq::empty(),
        Some(r) => match spec_decode_of::<T>(r.data) {
            Some(v) => seq![v],
            None => Seq::empty(),
        },
    }
}

/// The entities of a query result, reconstructed by joining member keys
/// against the entity records, silently dropping members whose record is
/// missing or fails to decode.
pub open spec fn join_entities<T: Cacheable>(
    rows: Seq<EntityRowView>,
    members: Seq<Seq<char>>,
) -> Seq<T::V>
    decreases members.len(),
{
    if members.len() == 0 {
        Seq::empty()
    } else {
        join_one::<T>(rows, members[0]) + join_entities::<T>(rows, members.drop_first())
    }
}

/// Full query lookup: entities in stored order, the query's `cached_at` and
/// its `max_updated` high-water mark.
pub open spec fn spec_query_lookup<T: Cacheable>(
    entities: Seq<EntityRowView>,
    queries: Seq<QueryRowView>,
    qh: Seq<char>,
) -> Option<(Seq<T::V>, int, Option<Seq<char>>)> {
    match find_query(queries, qh) {
        None => None,
        Some(q) => if q.entity_type == T::spec_entity_type() {
            Some((join_entities::<T>(entities, q.members), q.cached_at, q.max_updated))
        } else {
            None
        },
    }
}

// ---------------------------------------------------------------------------
// Lookup results
// ---------------------------------------------------------------------------

/// Result of a cached query lookup.
pub struct CachedQueryResult<T> {
    /// The cached entities, in stored order.
    pub entities: Vec<T>,
    /// When the query result was cached (seconds).
    pub cached_at: i64,
    /// Maximum `updated_at` among the stored entities, for incremental fetch.
    pub max_updated: Option<String>,
}

/// A single cached entity.
pub struct CachedEntity<T> {
    /// The cached entity.
    pub entity: T,
    /// When the entity was cached (seconds).
    pub cached_at: i64,
}

// ---------------------------------------------------------------------------
// The storage contract
// ---------------------------------------------------------------------------

/// Contract for cache storage backends.
///
/// A backend exposes its durable state as two record tables; reads are
/// specified by [`spec_entity_lookup`] and [`spec_query_lookup`] over those
/// tables. A disabled backend (`enabled() == false`) keeps both tables empty
/// forever, so every read misses and every write is discarded.
///
/// Everything proved about [`crate::layer::CacheLayer`] is relative to the
/// model the backend exposes. A backend outside the verifier's view — such
/// as a persistent one that leaves the default model (empty tables, writes
/// not known to succeed) in place — runs the same policy, but its reads and
/// writes carry none of the verified guarantees: those hold only as far as
/// the backend really behaves like its model.
pub trait CacheStorage: Sized {
    /// The entity records. A backend that does not expose its state to the
    /// verifier reads as empty.
    open spec fn entities(&self) -> Seq<EntityRowView> {
        Seq::empty()
    }

    /// The query records. A backend that does not expose its state to the
    /// verifier reads as empty.
    open spec fn queries(&self) -> Seq<QueryRowView> {
        Seq::empty()
    }

    /// Whether writes are persisted at all.
    open spec fn enabled(&self) -> bool {
        false
    }

    /// Whether writes are known to succeed. A backend that can fail a write
    /// (lock contention, disk I/O) reads as `false`; its callers receive
    /// the error instead of a silent regression to stale data.
    open spec fn writes_succeed(&self) -> bool {
        false
    }

    /// Store a query's result set wholesale: upsert every entity, replace the
    /// membership, and record the new high-water mark and `cached_at`. A
    /// write failure leaves the records unchanged and is reported.
    fn store_query_result<T: Cacheable>(&mut self, key: &str, entities: &Vec<T>, now: i64) -> (r:
        Result<(), String>)
        ensures
            final(self).enabled() == old(self).enabled(),
            final(self).writes_succeed() == old(self).writes_succeed(),
            old(self).writes_succeed() ==> r is Ok,
            r is Ok && old(self).enabled() ==> final(self).entities() == spec_upsert_rows(
                old(self).entities(),
                rows_of::<T>(spec_dedup::<T>(seq_views(entities@)), now as int),
            ) && final(self).queries() == upsert_query(
                old(self).queries(),
                spec_query_row_of::<T>(key@, seq_views(entities@), now as int),
            ),
            !(r is Ok && old(self).enabled()) ==> final(self).entities() == old(self).entities()
                && final(self).queries() == old(self).queries(),
    ;

    /// Get the cached entities for a query, in stored order.
    fn get_query_result<T: Cacheable>(&self, key: &str) -> (r: Option<CachedQueryResult<T>>)
        ensures
            match r {
                Some(q) => spec_query_lookup::<T>(self.entities(), self.queries(), key@) == Some(
                    (seq_views(q.entities@), q.cached_at as int, opt_view(q.max_updated)),
                ),
                None => spec_query_lookup::<T>(self.entities(), self.queries(), key@) is None,
            },
    ;

    /// Get a single entity by key.
    fn get_entity<T: Cacheable>(&self, entity_key: &str) -> (r: Option<CachedEntity<T>>)
        ensures
            match r {
                Some(e) => spec_entity_lookup::<T>(self.entities(), entity_key@) == Some(
                    (e.entity@, e.cached_at as int),
                ),
                None => spec_entity_lookup::<T>(self.entities(), entity_key@) is None,
            },
    ;

    /// Store a single entity. A write failure leaves the records unchanged
    /// and is reported.
    fn store_entity<T: Cacheable>(&mut self, entity: &T, now: i64) -> (r: Result<(), String>)
        ensures
            final(self).enabled() == old(self).enabled(),
            final(self).writes_succeed() == old(self).writes_succeed(),
            old(self).writes_succeed() ==> r is Ok,
            final(self).queries() == old(self).queries(),
            r is Ok && old(self).enabled() ==> final(self).entities() == upsert_entity(
                old(self).entities(),
                spec_row_of::<T>(entity@, now as int),
            ),
            !(r is Ok && old(self).enabled()) ==> final(self).entities() == old(self).entities(),
    ;

    /// Read the high-water mark recorded for a query, independent of
    /// freshness.
    fn get_max_updated(&self, key: &str) -> (r: Option<String>)
        ensures
            opt_view(r) == match find_query(self.queries(), key@) {
                Some(q) => q.max_updated,
                None => None,
            },
    ;

    /// Merge new entities into an existing query result: each new entity
    /// replaces the stored entity with the same key in place, or is
    /// prepended if not previously present; the merged set is then stored
    /// wholesale.
    fn merge_query_result<T: Cacheable>(&mut self, key: &str, new_entities: &Vec<T>, now: i64)
        -> (r: Result<(), String>)
        ensures
            final(self).enabled() == old(self).enabled(),
            final(self).writes_succeed() == old(self).writes_succeed(),
            old(self).writes_succeed() ==> r is Ok,
            r is Ok && old(self).enabled() ==> ({
                let merged = spec_merge_rows(
                    spec_existing_rows::<T>(
                        old(self).entities(),
                        members_of(old(self).queries(), key@),
                        now as int,
                    ),
                    rows_of::<T>(seq_views(new_entities@), now as int),
                );
                final(self).entities() == spec_upsert_rows(old(self).entities(), merged)
                    && final(self).queries() == upsert_query(
                    old(self).queries(),
                    spec_query_row_of_rows::<T>(key@, merged, now as int),
                )
            }),
            !(r is Ok && old(self).enabled()) ==> final(self).entities() == old(self).entities()
                && final(self).queries() == old(self).queries(),
    ;
}

// ---------------------------------------------------------------------------
// No-op backend
// ---------------------------------------------------------------------------

/// Storage backend that doesn't cache anything: every read misses and every
/// write discards its data. Used when caching is disabled.
pub struct NoopStorage;

impl CacheStorage for NoopStorage {
    open spec fn writes_succeed(&self) -> bool {
        true
    }

    fn store_query_result<T: Cacheable>(&mut self, key: &str, entities: &Vec<T>, now: i64) -> (r:
        Result<(), String>) {
        Ok(())
    }

    fn get_query_result<T: Cacheable>(&self, key: &str) -> (r: Option<CachedQueryResult<T>>) {
        None
    }

    fn get_entity<T: Cacheable>(&self, entity_key: &str) -> (r: Option<CachedEntity<T>>) {
        None
    }

    fn store_entity<T: Cacheable>(&mut self, entity: &T, now: i64) -> (r: Result<(), String>) {
        Ok(())
    }

    fn get_max_updated(&self, key: &str) -> (r: Option<String>) {
        None
    }

    fn merge_query_result<T: Cacheable>(&mut self, key: &str, new_entities: &Vec<T>, now: i64)
        -> (r: Result<(), String>) {
        Ok(())
    }
}

// ---------------------------------------------------------------------------
// Scan lemmas: a linear first-match scan computes the recursive lookups
// ---------------------------------------------------------------------------

proof fn lemma_find_entity_at(rows: Seq<EntityRowView>, et: Seq<char>, key: Seq<char>, i: int)
    requires
        0 <= i < rows.len(),
        rows[i].entity_type == et && rows[i].entity_key == key,
        forall|j: int|
            0 <= j < i ==> !((#[trigger] rows[j]).entity_type == et && rows[j].entity_key == key),
    ensures
        find_entity(rows, et, key) == Some(rows[i]),
    decreases i,
{
    if i > 0 {
        lemma_find_entity_at(rows.drop_first(), et, key, i - 1);
    }
}

proof fn lemma_find_entity_none(rows: Seq<EntityRowView>, et: Seq<char>, key: Seq<char>)
    requires
        forall|j: int|
            0 <= j < rows.len() ==> !((#[trigger] rows[j]).entity_type == et
                && rows[j].entity_key == key),
    ensures
        find_entity(rows, et, key) is None,
    decreases rows.len(),
{
    if rows.len() > 0 {
        lemma_find_entity_none(rows.drop_first(), et, key);
    }
}

proof fn lemma_find_query_at(rows: Seq<QueryRowView>, qh: Seq<char>, i: int)
    requires
        0 <= i < rows.len(),
        rows[i].query_hash == qh,
        forall|j: int| 0 <= j < i ==> (#[trigger] rows[j]).query_hash != qh,
    ensures
        find_query(rows, qh) == Some(rows[i]),
    decreases i,
{
    if i > 0 {
        lemma_find_query_at(rows.drop_first(), qh, i - 1);
    }
}

proof fn lemma_find_query_none(rows: Seq<QueryRowView>, qh: Seq<char>)
    requires
        forall|j: int| 0 <= j < rows.len() ==> (#[trigger] rows[j]).query_hash != qh,
    ensures
        find_query(rows, qh) is None,
    decreases rows.len(),
{
    if rows.len() > 0 {
        lemma_find_query_none(rows.drop_first(), qh);
    }
}

proof fn lemma_upsert_entity_at(rows: Seq<EntityRowView>, row: EntityRowView, i: int)
    requires
        0 <= i < rows.len(),
        rows[i].entity_type == row.entity_type && rows[i].entity_key == row.entity_key,
        forall|j: int|
            0 <= j < i ==> !((#[trigger] rows[j]).entity_type == row.entity_type
                && rows[j].entity_key == row.entity_key),
    ensures
        upsert_entity(rows, row) == rows.update(i, row),
    decreases i,
{
    if i == 0 {
        assert(upsert_entity(rows, row) =~= rows.update(0, row));
    } else {
        lemma_upsert_entity_at(rows.drop_first(), row, i - 1);
        assert(rows.drop_first().update(i - 1, row) =~= rows.update(i, row).drop_first());
        assert(seq![rows[0]] + rows.drop_first().update(i - 1, row) =~= rows.update(i, row));
    }
}

proof fn lemma_upsert_entity_push(rows: Seq<EntityRowView>, row: EntityRowView)
    requires
        forall|j: int|
            0 <= j < rows.len() ==> !((#[trigger] rows[j]).entity_type == row.entity_type
                && rows[j].entity_key == row.entity_key),
    ensures
        upsert_entity(rows, row) == rows.push(row),
    decreases rows.len(),
{
    if rows.len() == 0 {
        assert(upsert_entity(rows, row) =~= rows.push(row));
    } else {
        lemma_upsert_entity_push(rows.drop_first(), row);
        assert(rows.drop_first().push(row) =~= rows.push(row).drop_first());
        assert(seq![rows[0]] + rows.drop_first().push(row) =~= rows.push(row));
    }
}

proof fn lemma_upsert_query_at(rows: Seq<QueryRowView>, row: QueryRowView, i: int)
    requires
        0 <= i < rows.len(),
        rows[i].query_hash == row.query_hash,
        forall|j: int| 0 <= j < i ==> (#[trigger] rows[j]).query_hash != row.query_hash,
    ensures
        upsert_query(rows, row) == rows.update(i, row),
    decreases i,
{
    if i == 0 {
        assert(upsert_query(rows, row) =~= rows.update(0, row));
    } else {
        lemma_upsert_query_at(rows.drop_first(), row, i - 1);
        assert(rows.drop_first().update(i - 1, row) =~= rows.update(i, row).drop_first());
        assert(seq![rows[0]] + rows.drop_first().update(i - 1, row) =~= rows.update(i, row));
    }
}

proof fn lemma_upsert_query_push(rows: Seq<QueryRowView>, row: QueryRowView)
    requires
        forall|j: int| 0 <= j < rows.len() ==> (#[trigger] rows[j]).query_hash != row.query_hash,
    ensures
        upsert_query(rows, row) == rows.push(row),
    decreases rows.len(),
{
    if rows.len() == 0 {
        assert(upsert_query(rows, row) =~= rows.push(row));
    } else {
        lemma_upsert_query_push(rows.drop_first(), row);
        assert(rows.drop_first().push(row) =~= rows.push(row).drop_first());
        assert(seq![rows[0]] + rows.drop_first().push(row) =~= rows.push(row));
    }
}


// ---------------------------------------------------------------------------
// Round trip through the store
// ---------------------------------------------------------------------------

/// Storing an entity and looking its key up returns an equal entity (by
/// view) stamped with the store time, whatever the store held before.
pub proof fn lemma_store_then_get<T: Cacheable>(rows: Seq<EntityRowView>, v: T::V, now: int)
    requires
        crate::codec::fields_bounded(T::spec_fields_of(v)),
    ensures
        spec_entity_lookup::<T>(upsert_entity(rows, spec_row_of::<T>(v, now)), T::spec_key_of(v))
            == Some((v, now)),
{
    lemma_find_upserted_entity(rows, spec_row_of::<T>(v, now));
    crate::cache::lemma_entity_round_trip::<T>(v);
}

// ---------------------------------------------------------------------------
// Fold lemmas: left-to-right loops compute the recursive folds
// ---------------------------------------------------------------------------

proof fn lemma_upsert_rows_push(rows: Seq<EntityRowView>, list: Seq<EntityRowView>, r: EntityRowView)
    ensures
        spec_upsert_rows(rows, list.push(r)) == upsert_entity(spec_upsert_rows(rows, list), r),
    decreases list.len(),
{
    if list.len() == 0 {
        assert(list.push(r)[0] == r);
        assert(list.push(r).drop_first() =~= Seq::<EntityRowView>::empty());
        assert(spec_upsert_rows(upsert_entity(rows, r), Seq::<EntityRowView>::empty())
            == upsert_entity(rows, r));
        assert(spec_upsert_rows(rows, Seq::<EntityRowView>::empty()) == rows);
    } else {
        assert(list.push(r)[0] == list[0]);
        assert(list.push(r).drop_first() =~= list.drop_first().push(r));
        lemma_upsert_rows_push(upsert_entity(rows, list[0]), list.drop_first(), r);
    }
}

proof fn lemma_merge_rows_push(olds: Seq<EntityRowView>, news: Seq<EntityRowView>, r: EntityRowView)
    ensures
        spec_merge_rows(olds, news.push(r)) == merge_step(spec_merge_rows(olds, news), r),
    decreases news.len(),
{
    if news.len() == 0 {
        assert(news.push(r)[0] == r);
        assert(news.push(r).drop_first() =~= Seq::<EntityRowView>::empty());
        assert(spec_merge_rows(merge_step(olds, r), Seq::<EntityRowView>::empty())
            == merge_step(olds, r));
        assert(spec_merge_rows(olds, Seq::<EntityRowView>::empty()) == olds);
    } else {
        assert(news.push(r)[0] == news[0]);
        assert(news.push(r).drop_first() =~= news.drop_first().push(r));
        lemma_merge_rows_push(merge_step(olds, news[0]), news.drop_first(), r);
    }
}

proof fn lemma_join_push<T: Cacheable>(
    rows: Seq<EntityRowView>,
    members: Seq<Seq<char>>,
    k: Seq<char>,
)
    ensures
        join_entities::<T>(rows, members.push(k)) == join_entities::<T>(rows, members)
            + join_one::<T>(rows, k),
    decreases members.len(),
{
    if members.len() == 0 {
        assert(members.push(k)[0] == k);
        assert(members.push(k).drop_first() =~= Seq::<Seq<char>>::empty());
        assert(join_entities::<T>(rows, Seq::<Seq<char>>::empty()) == Seq::<T::V>::empty());
        assert(join_one::<T>(rows, k) + Seq::<T::V>::empty() =~= Seq::<T::V>::empty()
            + join_one::<T>(rows, k));
    } else {
        assert(members.push(k)[0] == members[0]);
        assert(members.push(k).drop_first() =~= members.drop_first().push(k));
        lemma_join_push::<T>(rows, members.drop_first(), k);
        assert(join_one::<T>(rows, members[0]) + (join_entities::<T>(rows, members.drop_first())
            + join_one::<T>(rows, k)) =~= (join_one::<T>(rows, members[0]) + join_entities::<T>(
            rows,
            members.drop_first(),
        )) + join_one::<T>(rows, k));
    }
}

proof fn lemma_existing_push<T: Cacheable>(
    es: Seq<EntityRowView>,
    members: Seq<Seq<char>>,
    k: Seq<char>,
    now: int,
)
    ensures
        spec_existing_rows::<T>(es, members.push(k), now) == spec_existing_rows::<T>(
            es,
            members,
            now,
        ) + existing_one::<T>(es, k, now),
    decreases members.len(),
{
    if members.len() == 0 {
        assert(members.push(k)[0] == k);
        assert(members.push(k).drop_first() =~= Seq::<Seq<char>>::empty());
        assert(spec_existing_rows::<T>(es, Seq::<Seq<char>>::empty(), now)
            == Seq::<EntityRowView>::empty());
        assert(existing_one::<T>(es, k, now) + Seq::<EntityRowView>::empty()
            =~= Seq::<EntityRowView>::empty() + existing_one::<T>(es, k, now));
    } else {
        assert(members.push(k)[0] == members[0]);
        assert(members.push(k).drop_first() =~= members.drop_first().push(k));
        lemma_existing_push::<T>(es, members.drop_first(), k, now);
        assert(existing_one::<T>(es, members[0], now) + (spec_existing_rows::<T>(
            es,
            members.drop_first(),
            now,
        ) + existing_one::<T>(es, k, now)) =~= (existing_one::<T>(es, members[0], now)
            + spec_existing_rows::<T>(es, members.drop_first(), now)) + existing_one::<T>(
            es,
            k,
            now,
        ));
    }
}

proof fn lemma_replace_row_at(rows: Seq<EntityRowView>, row: EntityRowView, i: int)
    requires
        0 <= i < rows.len(),
        rows[i].entity_key == row.entity_key,
        forall|j: int| 0 <= j < i ==> (#[trigger] rows[j]).entity_key != row.entity_key,
    ensures
        replace_row(rows, row) == rows.update(i, row),
    decreases i,
{
    if i == 0 {
        assert(replace_row(rows, row) =~= rows.update(0, row));
    } else {
        lemma_replace_row_at(rows.drop_first(), row, i - 1);
        assert(rows.drop_first().update(i - 1, row) =~= rows.update(i, row).drop_first());
        assert(seq![rows[0]] + rows.drop_first().update(i - 1, row) =~= rows.update(i, row));
    }
}

// ---------------------------------------------------------------------------
// Small executable helpers
// ---------------------------------------------------------------------------

/// Byte-for-byte copy of a payload.
fn clone_bytes(v: &Vec<u8>) -> (r: Vec<u8>)
    ensures
        r@ == v@,
{
    let mut r: Vec<u8> = Vec::new();
    let n = v.len();
    let mut i: usize = 0;
    while i < n
        invariant
            n == v@.len(),
            0 <= i <= n,
            r@ == v@.take(i as int),
        decreases n - i,
    {
        r.push(v[i]);
        proof {
            assert(v@.take(i as int).push(v@[i as int]) =~= v@.take(i as int + 1));
        }
        i += 1;
    }
    proof {
        assert(v@.take(n as int) =~= v@);
    }
    r
}

/// Copy of an entity record.
fn clone_entity_row(r: &EntityRow) -> (c: EntityRow)
    ensures
        c@ == r@,
{
    let c = EntityRow {
        entity_type: r.entity_type.clone(),
        entity_key: r.entity_key.clone(),
        data: clone_bytes(&r.data),
        updated_at: crate::jira_types::clone_opt(&r.updated_at),
        cached_at: r.cached_at,
    };
    proof {
        assert(c@ =~= r@);
    }
    c
}

/// Does any of `keys` read `k`?
fn contains_key(keys: &Vec<String>, k: &str) -> (r: bool)
    ensures
        r == (exists|j: int| 0 <= j < keys.deep_view().len() && keys.deep_view()[j] == k@),
{
    let n = keys.len();
    let mut i: usize = 0;
    while i < n
        invariant
            n == keys@.len(),
            0 <= i <= n,
            forall|j: int| 0 <= j < i ==> keys.deep_view()[j] != k@,
        decreases n - i,
    {
        if str_eq(keys[i].as_str(), k) {
            proof {
                assert(keys.deep_view()[i as int] == k@);
            }
            return true;
        }
        i += 1;
    }
    false
}

/// Index of the first record in `rows` whose entity key reads `key`.
fn row_key_index(rows: &Vec<EntityRow>, key: &str) -> (r: Option<usize>)
    ensures
        match r {
            Some(i) => i < rows@.len() && rows.deep_view()[i as int].entity_key == key@
                && forall|j: int|
                0 <= j < i ==> (#[trigger] rows.deep_view()[j]).entity_key != key@,
            None => !has_row_key(rows.deep_view(), key@),
        },
{
    let n = rows.len();
    let mut i: usize = 0;
    while i < n
        invariant
            n == rows@.len(),
            0 <= i <= n,
            forall|j: int| 0 <= j < i ==> (#[trigger] rows.deep_view()[j]).entity_key != key@,
        decreases n - i,
    {
        if str_eq(rows[i].entity_key.as_str(), key) {
            proof {
                assert(rows.deep_view()[i as int].entity_key == key@);
            }
            return Some(i);
        }
        i += 1;
    }
    proof {
        assert(!has_row_key(rows.deep_view(), key@));
    }
    None
}

/// Deduplicate `items[i..]` by cache key, keeping each key's last
/// occurrence, and return the records and keys of the kept entities.
fn dedup_rows<T: Cacheable>(items: &Vec<T>, i: usize, now: i64) -> (r: (Vec<EntityRow>, Vec<
    String,
>))
    requires
        i <= items@.len(),
    ensures
        r.0.deep_view() == rows_of::<T>(
            spec_dedup::<T>(seq_views(items@).skip(i as int)),
            now as int,
        ),
        r.1.deep_view() == spec_keys_of::<T>(spec_dedup::<T>(seq_views(items@).skip(i as int))),
    decreases items@.len() - i,
{
    let n = items.len();
    if i == n {
        let r: (Vec<EntityRow>, Vec<String>) = (Vec::new(), Vec::new());
        proof {
            assert(seq_views(items@).skip(i as int) =~= Seq::<T::V>::empty());
            assert(r.0.deep_view() =~= rows_of::<T>(
                spec_dedup::<T>(Seq::<T::V>::empty()),
                now as int,
            ));
            assert(r.1.deep_view() =~= spec_keys_of::<T>(spec_dedup::<T>(Seq::<T::V>::empty())));
        }
        r
    } else {
        let (mut rows, mut keys) = dedup_rows::<T>(items, i + 1, now);
        let e = &items[i];
        let k = e.cache_key();
        let ghost s = seq_views(items@);
        let ghost rest = spec_dedup::<T>(s.skip(i as int + 1));
        proof {
            assert(s.skip(i as int)[0] == s[i as int]);
            assert(s.skip(i as int).drop_first() =~= s.skip(i as int + 1));
            assert(s[i as int] == items@[i as int]@);
        }
        if contains_key(&keys, k.as_str()) {
            proof {
                let j = choose|j: int|
                    0 <= j < keys.deep_view().len() && keys.deep_view()[j] == k@;
                assert(T::spec_key_of(rest[j]) == k@);
                assert(spec_has_key::<T>(rest, T::spec_key_of(s[i as int])));
            }
            (rows, keys)
        } else {
            proof {
                assert(!spec_has_key::<T>(rest, T::spec_key_of(s[i as int]))) by {
                    if spec_has_key::<T>(rest, T::spec_key_of(s[i as int])) {
                        let j = choose|j: int|
                            0 <= j < rest.len() && T::spec_key_of(#[trigger] rest[j]) == k@;
                        assert(keys.deep_view()[j] == k@);
                    }
                }
            }
            let row = EntityRow {
                entity_type: T::entity_type(),
                entity_key: k.clone(),
                data: encode_entity(e),
                updated_at: e.updated_at(),
                cached_at: now,
            };
            proof {
                assert(row@ =~= spec_row_of::<T>(s[i as int], now as int));
            }
            let ghost r0 = rows.deep_view();
            let ghost k0 = keys.deep_view();
            let ghost kv = k@;
            rows.insert(0, row);
            keys.insert(0, k);
            let ghost kept = spec_dedup::<T>(s.skip(i as int));
            proof {
                assert(kept == seq![s[i as int]] + rest);
                assert(rows.deep_view() =~= seq![row@] + r0);
                assert(rows_of::<T>(kept, now as int) =~= seq![row@] + r0);
                assert(keys.deep_view() =~= seq![kv] + k0);
                assert(spec_keys_of::<T>(kept) =~= seq![kv] + k0);
            }
            (rows, keys)
        }
    }
}


// ---------------------------------------------------------------------------
// Typed merge, for callers that hold decoded entity lists
// ---------------------------------------------------------------------------

/// Replace the first entity whose cache key matches `v`'s.
pub open spec fn replace_entity<T: Cacheable>(items: Seq<T::V>, v: T::V) -> Seq<T::V>
    decreases items.len(),
{
    if items.len() == 0 {
        items
    } else if T::spec_key_of(items[0]) == T::spec_key_of(v) {
        seq![v] + items.drop_first()
    } else {
        seq![items[0]] + replace_entity::<T>(items.drop_first(), v)
    }
}

/// Merge one entity into a result list: replace in place if its key is
/// present, else prepend.
pub open spec fn merge_entity_step<T: Cacheable>(items: Seq<T::V>, v: T::V) -> Seq<T::V> {
    if spec_has_key::<T>(items, T::spec_key_of(v)) {
        replace_entity::<T>(items, v)
    } else {
        seq![v] + items
    }
}

/// Merge a list of new entities into a result list, left to right.
pub open spec fn spec_merge_entities<T: Cacheable>(olds: Seq<T::V>, news: Seq<T::V>) -> Seq<T::V>
    decreases news.len(),
{
    if news.len() == 0 {
        olds
    } else {
        spec_merge_entities::<T>(merge_entity_step::<T>(olds, news[0]), news.drop_first())
    }
}

proof fn lemma_merge_entities_push<T: Cacheable>(olds: Seq<T::V>, news: Seq<T::V>, v: T::V)
    ensures
        spec_merge_entities::<T>(olds, news.push(v)) == merge_entity_step::<T>(
            spec_merge_entities::<T>(olds, news),
            v,
        ),
    decreases news.len(),
{
    if news.len() == 0 {
        assert(news.push(v)[0] == v);
        assert(news.push(v).drop_first() =~= Seq::<T::V>::empty());
        assert(spec_merge_entities::<T>(merge_entity_step::<T>(olds, v), Seq::<T::V>::empty())
            == merge_entity_step::<T>(olds, v));
        assert(spec_merge_entities::<T>(olds, Seq::<T::V>::empty()) == olds);
    } else {
        assert(news.push(v)[0] == news[0]);
        assert(news.push(v).drop_first() =~= news.drop_first().push(v));
        lemma_merge_entities_push::<T>(merge_entity_step::<T>(olds, news[0]), news.drop_first(), v);
    }
}

proof fn lemma_replace_entity_at<T: Cacheable>(items: Seq<T::V>, v: T::V, i: int)
    requires
        0 <= i < items.len(),
        T::spec_key_of(items[i]) == T::spec_key_of(v),
        forall|j: int|
            0 <= j < i ==> T::spec_key_of(#[trigger] items[j]) != T::spec_key_of(v),
    ensures
        replace_entity::<T>(items, v) == items.update(i, v),
    decreases i,
{
    if i == 0 {
        assert(replace_entity::<T>(items, v) =~= items.update(0, v));
    } else {
        lemma_replace_entity_at::<T>(items.drop_first(), v, i - 1);
        assert(items.drop_first().update(i - 1, v) =~= items.update(i, v).drop_first());
        assert(seq![items[0]] + items.drop_first().update(i - 1, v) =~= items.update(i, v));
    }
}

/// Index of the first entity whose cache key reads `key`.
fn entity_key_index<T: Cacheable>(items: &Vec<T>, key: &str) -> (r: Option<usize>)
    ensures
        match r {
            Some(i) => i < items@.len() && T::spec_key_of(seq_views(items@)[i as int]) == key@
                && forall|j: int|
                0 <= j < i ==> T::spec_key_of(#[trigger] seq_views(items@)[j]) != key@,
            None => !spec_has_key::<T>(seq_views(items@), key@),
        },
{
    let n = items.len();
    let mut i: usize = 0;
    while i < n
        invariant
            0 <= i <= n,
            n == items@.len(),
            forall|j: int|
                0 <= j < i ==> T::spec_key_of(#[trigger] seq_views(items@)[j]) != key@,
        decreases n - i,
    {
        let k = items[i].cache_key();
        proof {
            assert(seq_views(items@)[i as int] == items@[i as int]@);
        }
        if str_eq(k.as_str(), key) {
            return Some(i);
        }
        i += 1;
    }
    proof {
        assert(!spec_has_key::<T>(seq_views(items@), key@)) by {
            if spec_has_key::<T>(seq_views(items@), key@) {
                let j = choose|j: int|
                    0 <= j < seq_views(items@).len() && T::spec_key_of(
                        #[trigger] seq_views(items@)[j],
                    ) == key@;
                assert(T::spec_key_of(seq_views(items@)[j]) != key@);
            }
        }
    }
    None
}

/// An equal copy of an entity, made through its own serialization.
fn copy_entity<T: Cacheable>(e: &T) -> (c: T)
    ensures
        c@ == e@,
{
    let bytes = encode_entity(e);
    proof {
        crate::cache::lemma_entity_round_trip::<T>(e@);
    }
    match decode_entity::<T>(&bytes) {
        Some(c) => c,
        None => vstd::pervasive::unreached(),
    }
}

/// Merge new entities into an existing result list: each new entity
/// replaces the existing entity with the same key in place, or is
/// prepended if not previously present. This is the policy
/// [`CacheStorage::merge_query_result`] applies to the stored records; a
/// persistent backend that merges decoded lists calls this so the policy
/// exists in one place.
#[verifier::loop_isolation(false)]
pub fn merge_entity_lists<T: Cacheable>(existing: Vec<T>, new_entities: &Vec<T>) -> (r: Vec<T>)
    ensures
        seq_views(r@) == spec_merge_entities::<T>(
            seq_views(existing@),
            seq_views(new_entities@),
        ),
{
    let ghost olds = seq_views(existing@);
    let ghost news = seq_views(new_entities@);
    let mut merged = existing;
    let nn = new_entities.len();
    let mut j: usize = 0;
    proof {
        assert(news.take(0) =~= Seq::<T::V>::empty());
    }
    while j < nn
        invariant
            0 <= j <= nn,
            nn == new_entities@.len(),
            seq_views(merged@) == spec_merge_entities::<T>(olds, news.take(j as int)),
        decreases nn - j,
    {
        let c = copy_entity(&new_entities[j]);
        proof {
            assert(news[j as int] == new_entities@[j as int]@);
            assert(c@ == news[j as int]);
            lemma_merge_entities_push::<T>(olds, news.take(j as int), news[j as int]);
            assert(news.take(j as int).push(news[j as int]) =~= news.take(j as int + 1));
        }
        let ghost mv = seq_views(merged@);
        let key = c.cache_key();
        match entity_key_index::<T>(&merged, key.as_str()) {
            Some(idx) => {
                proof {
                    assert(T::spec_key_of(mv[idx as int]) == T::spec_key_of(c@));
                    assert(spec_has_key::<T>(mv, T::spec_key_of(c@)));
                    lemma_replace_entity_at::<T>(mv, c@, idx as int);
                }
                let _ = merged.remove(idx);
                merged.insert(idx, c);
                proof {
                    assert(seq_views(merged@) =~= mv.update(idx as int, c@));
                }
            }
            None => {
                merged.insert(0, c);
                proof {
                    assert(seq_views(merged@) =~= seq![c@] + mv);
                }
            }
        }
        j += 1;
    }
    proof {
        assert(news.take(nn as int) =~= news);
    }
    merged
}

// ---------------------------------------------------------------------------
// In-memory backend
// ---------------------------------------------------------------------------

/// Verified in-memory storage engine. It realizes the relational model
/// directly: one vector per table, first match by key.
pub struct MemoryStorage {
    entity_rows: Vec<EntityRow>,
    query_rows: Vec<QueryRow>,
}

impl MemoryStorage {
    /// An empty cache.
    pub fn new() -> (r: Self)
        ensures
            r.entities() == Seq::<EntityRowView>::empty(),
            r.queries() == Seq::<QueryRowView>::empty(),
            r.enabled(),
    {
        let r = MemoryStorage { entity_rows: Vec::new(), query_rows: Vec::new() };
        proof {
            assert(r.entities() =~= Seq::<EntityRowView>::empty());
            assert(r.queries() =~= Seq::<QueryRowView>::empty());
        }
        r
    }

    /// Index of the first entity record with this type and key.
    fn entity_index(&self, et: &str, key: &str) -> (r: Option<usize>)
        ensures
            match r {
                Some(i) => i < self.entity_rows@.len() && find_entity(self.entities(), et@, key@)
                    == Some(self.entities()[i as int]),
                None => find_entity(self.entities(), et@, key@) is None,
            },
    {
        let n = self.entity_rows.len();
        let mut i: usize = 0;
        while i < n
            invariant
                n == self.entity_rows@.len(),
                0 <= i <= n,
                forall|j: int|
                    0 <= j < i ==> !((#[trigger] self.entities()[j]).entity_type == et@
                        && self.entities()[j].entity_key == key@),
            decreases n - i,
        {
            let row = &self.entity_rows[i];
            if str_eq(row.entity_type.as_str(), et) && str_eq(row.entity_key.as_str(), key) {
                proof {
                    lemma_find_entity_at(self.entities(), et@, key@, i as int);
                }
                return Some(i);
            }
            i += 1;
        }
        proof {
            lemma_find_entity_none(self.entities(), et@, key@);
        }
        None
    }

    /// Index of the first query record with this hash.
    fn query_index(&self, qh: &str) -> (r: Option<usize>)
        ensures
            match r {
                Some(i) => i < self.query_rows@.len() && find_query(self.queries(), qh@) == Some(
                    self.queries()[i as int],
                ),
                None => find_query(self.queries(), qh@) is None,
            },
    {
        let n = self.query_rows.len();
        let mut i: usize = 0;
        while i < n
            invariant
                n == self.query_rows@.len(),
                0 <= i <= n,
                forall|j: int| 0 <= j < i ==> (#[trigger] self.queries()[j]).query_hash != qh@,
            decreases n - i,
        {
            if str_eq(self.query_rows[i].query_hash.as_str(), qh) {
                proof {
                    lemma_find_query_at(self.queries(), qh@, i as int);
                }
                return Some(i);
            }
            i += 1;
        }
        proof {
            lemma_find_query_none(self.queries(), qh@);
        }
        None
    }

    /// Insert or replace one entity record.
    #[verifier::loop_isolation(false)]
    fn upsert_entity_row(&mut self, row: EntityRow)
        ensures
            final(self).entities() == upsert_entity(old(self).entities(), row@),
            final(self).query_rows == old(self).query_rows,
    {
        let ghost pre = self.entities();
        let n = self.entity_rows.len();
        let mut i: usize = 0;
        while i < n
            invariant
                n == self.entity_rows@.len(),
                0 <= i <= n,
                self == old(self),
                forall|j: int|
                    0 <= j < i ==> !((#[trigger] self.entities()[j]).entity_type
                        == row@.entity_type && self.entities()[j].entity_key == row@.entity_key),
            decreases n - i,
        {
            let cur = &self.entity_rows[i];
            if str_eq(cur.entity_type.as_str(), row.entity_type.as_str()) && str_eq(
                cur.entity_key.as_str(),
                row.entity_key.as_str(),
            ) {
                proof {
                    lemma_upsert_entity_at(pre, row@, i as int);
                }
                let _ = self.entity_rows.remove(i);
                self.entity_rows.insert(i, row);
                proof {
                    assert(self.entities() =~= pre.update(i as int, row@));
                }
                return ;
            }
            i += 1;
        }
        proof {
            lemma_upsert_entity_push(pre, row@);
        }
        self.entity_rows.push(row);
        proof {
            assert(self.entities() =~= pre.push(row@));
        }
    }

    /// Insert or replace one query record.
    #[verifier::loop_isolation(false)]
    fn upsert_query_row(&mut self, row: QueryRow)
        ensures
            final(self).queries() == upsert_query(old(self).queries(), row@),
            final(self).entity_rows == old(self).entity_rows,
    {
        let ghost pre = self.queries();
        let n = self.query_rows.len();
        let mut i: usize = 0;
        while i < n
            invariant
                n == self.query_rows@.len(),
                0 <= i <= n,
                self == old(self),
                forall|j: int|
                    0 <= j < i ==> (#[trigger] self.queries()[j]).query_hash != row@.query_hash,
            decreases n - i,
        {
            if str_eq(self.query_rows[i].query_hash.as_str(), row.query_hash.as_str()) {
                proof {
                    lemma_upsert_query_at(pre, row@, i as int);
                }
                let _ = self.query_rows.remove(i);
                self.query_rows.insert(i, row);
                proof {
                    assert(self.queries() =~= pre.update(i as int, row@));
                }
                return ;
            }
            i += 1;
        }
        proof {
            lemma_upsert_query_push(pre, row@);
        }
        self.query_rows.push(row);
        proof {
            assert(self.queries() =~= pre.push(row@));
        }
    }
}

/// The larger of two optional version stamps.
fn max_opt(a: Option<String>, b: Option<String>) -> (r: Option<String>)
    ensures
        opt_view(r) == spec_max_opt(opt_view(a), opt_view(b)),
{
    match (a, b) {
        (None, x) => x,
        (x, None) => x,
        (Some(u), Some(w)) => {
            let cu = string_chars(u.as_str());
            let cw = string_chars(w.as_str());
            if chars_lt(&cu, &cw) {
                Some(w)
            } else {
                Some(u)
            }
        }
    }
}

impl CacheStorage for MemoryStorage {
    closed spec fn entities(&self) -> Seq<EntityRowView> {
        self.entity_rows.deep_view()
    }

    closed spec fn queries(&self) -> Seq<QueryRowView> {
        self.query_rows.deep_view()
    }

    open spec fn enabled(&self) -> bool {
        true
    }

    open spec fn writes_succeed(&self) -> bool {
        true
    }

    #[verifier::loop_isolation(false)]
    fn store_query_result<T: Cacheable>(&mut self, key: &str, entities: &Vec<T>, now: i64) -> (r:
        Result<(), String>) {
        let (rows, keys) = dedup_rows::<T>(entities, 0, now);
        let ghost kept = spec_dedup::<T>(seq_views(entities@));
        let ghost keptrows = rows_of::<T>(kept, now as int);
        proof {
            assert(seq_views(entities@).skip(0) =~= seq_views(entities@));
        }
        let ghost pre = self.entities();
        let ghost preq = self.queries();
        let n = rows.len();
        let mut i: usize = 0;
        while i < n
            invariant
                n == rows@.len(),
                0 <= i <= n,
                rows.deep_view() == keptrows,
                self.queries() == preq,
                self.entities() == spec_upsert_rows(pre, keptrows.take(i as int)),
            decreases n - i,
        {
            let row = clone_entity_row(&rows[i]);
            proof {
                lemma_upsert_rows_push(pre, keptrows.take(i as int), keptrows[i as int]);
                assert(keptrows.take(i as int).push(keptrows[i as int]) =~= keptrows.take(
                    i as int + 1,
                ));
            }
            self.upsert_entity_row(row);
            i += 1;
        }
        proof {
            assert(keptrows.take(n as int) =~= keptrows);
        }
        let mut mu: Option<String> = None;
        let m = entities.len();
        let mut j: usize = m;
        proof {
            assert(seq_views(entities@).skip(m as int) =~= Seq::<T::V>::empty());
            assert(spec_max_updated::<T>(Seq::<T::V>::empty()) is None);
        }
        while j > 0
            invariant
                0 <= j <= m,
                m == entities@.len(),
                opt_view(mu) == spec_max_updated::<T>(seq_views(entities@).skip(j as int)),
            decreases j,
        {
            j -= 1;
            let u = entities[j].updated_at();
            mu = max_opt(u, mu);
            proof {
                let s = seq_views(entities@);
                assert(s.skip(j as int)[0] == s[j as int]);
                assert(s[j as int] == entities@[j as int]@);
                assert(s.skip(j as int).drop_first() =~= s.skip(j as int + 1));
            }
        }
        let qr = QueryRow {
            query_hash: key.to_owned(),
            description: key.to_owned(),
            entity_type: T::entity_type(),
            max_updated: mu,
            cached_at: now,
            members: keys,
        };
        proof {
            assert(qr@ =~= spec_query_row_of::<T>(key@, seq_views(entities@), now as int));
        }
        self.upsert_query_row(qr);
        Ok(())
    }

    #[verifier::loop_isolation(false)]
    fn get_query_result<T: Cacheable>(&self, key: &str) -> (r: Option<CachedQueryResult<T>>) {
        let qi = match self.query_index(key) {
            Some(i) => i,
            None => {
                return None;
            }
        };
        let et = T::entity_type();
        if !str_eq(self.query_rows[qi].entity_type.as_str(), et.as_str()) {
            return None;
        }
        let members = crate::jira_types::clone_strings(&self.query_rows[qi].members);
        let cached_at = self.query_rows[qi].cached_at;
        let max_updated = crate::jira_types::clone_opt(&self.query_rows[qi].max_updated);
        let ghost q = self.queries()[qi as int];
        let ghost ms = q.members;
        proof {
            assert(members.deep_view() == ms);
        }
        let mut out: Vec<T> = Vec::new();
        let n = members.len();
        let mut i: usize = 0;
        while i < n
            invariant
                n == members@.len(),
                0 <= i <= n,
                members.deep_view() == ms,
                et@ == T::spec_entity_type(),
                seq_views(out@) == join_entities::<T>(self.entities(), ms.take(i as int)),
            decreases n - i,
        {
            proof {
                lemma_join_push::<T>(self.entities(), ms.take(i as int), ms[i as int]);
                assert(ms.take(i as int).push(ms[i as int]) =~= ms.take(i as int + 1));
                assert(members.deep_view()[i as int] == members@[i as int]@);
            }
            let ghost prev = seq_views(out@);
            match self.entity_index(et.as_str(), members[i].as_str()) {
                Some(ei) => {
                    match decode_entity::<T>(&self.entity_rows[ei].data) {
                        Some(v) => {
                            let ghost vv = v@;
                            out.push(v);
                            proof {
                                assert(seq_views(out@) =~= prev + seq![vv]);
                            }
                        }
                        None => {
                            proof {
                                assert(seq_views(out@) =~= prev
                                    + Seq::<T::V>::empty());
                            }
                        }
                    }
                }
                None => {
                    proof {
                        assert(seq_views(out@) =~= prev + Seq::<T::V>::empty());
                    }
                }
            }
            i += 1;
        }
        proof {
            assert(ms.take(n as int) =~= ms);
        }
        Some(CachedQueryResult { entities: out, cached_at, max_updated })
    }

    fn get_entity<T: Cacheable>(&self, entity_key: &str) -> (r: Option<CachedEntity<T>>) {
        let et = T::entity_type();
        match self.entity_index(et.as_str(), entity_key) {
            Some(i) => {
                let row = &self.entity_rows[i];
                match decode_entity::<T>(&row.data) {
                    Some(v) => Some(CachedEntity { entity: v, cached_at: row.cached_at }),
                    None => None,
                }
            }
            None => None,
        }
    }

    fn store_entity<T: Cacheable>(&mut self, entity: &T, now: i64) -> (r: Result<(), String>) {
        let row = EntityRow {
            entity_type: T::entity_type(),
            entity_key: entity.cache_key(),
            data: encode_entity(entity),
            updated_at: entity.updated_at(),
            cached_at: now,
        };
        proof {
            assert(row@ =~= spec_row_of::<T>(entity@, now as int));
        }
        self.upsert_entity_row(row);
        Ok(())
    }

    fn get_max_updated(&self, key: &str) -> (r: Option<String>) {
        match self.query_index(key) {
            Some(i) => crate::jira_types::clone_opt(&self.query_rows[i].max_updated),
            None => None,
        }
    }

    #[verifier::loop_isolation(false)]
    fn merge_query_result<T: Cacheable>(&mut self, key: &str, new_entities: &Vec<T>, now: i64)
        -> (r: Result<(), String>) {
        let ghost pre = self.entities();
        let ghost preq = self.queries();
        let members: Vec<String> = match self.query_index(key) {
            Some(i) => crate::jira_types::clone_strings(&self.query_rows[i].members),
            None => Vec::new(),
        };
        let ghost ms = members_of(preq, key@);
        proof {
            assert(members.deep_view() =~= ms);
        }
        let et = T::entity_type();
        let mut merged: Vec<EntityRow> = Vec::new();
        let n = members.len();
        let mut i: usize = 0;
        while i < n
            invariant
                n == members@.len(),
                0 <= i <= n,
                members.deep_view() == ms,
                et@ == T::spec_entity_type(),
                self == old(self),
                self.entities() == pre,
                merged.deep_view() == spec_existing_rows::<T>(pre, ms.take(i as int), now as int),
            decreases n - i,
        {
            proof {
                lemma_existing_push::<T>(pre, ms.take(i as int), ms[i as int], now as int);
                assert(ms.take(i as int).push(ms[i as int]) =~= ms.take(i as int + 1));
                assert(members.deep_view()[i as int] == members@[i as int]@);
            }
            let ghost prev = merged.deep_view();
            match self.entity_index(et.as_str(), members[i].as_str()) {
                Some(ei) => {
                    let keep = decode_entity::<T>(&self.entity_rows[ei].data).is_some();
                    if keep {
                        let mut c = clone_entity_row(&self.entity_rows[ei]);
                        c.cached_at = now;
                        proof {
                            assert(c@ =~= row_at_time(self.entities()[ei as int], now as int));
                        }
                        merged.push(c);
                        proof {
                            assert(merged.deep_view() =~= prev + existing_one::<T>(
                                pre,
                                ms[i as int],
                                now as int,
                            ));
                        }
                    } else {
                        proof {
                            assert(merged.deep_view() =~= prev + Seq::<EntityRowView>::empty());
                        }
                    }
                }
                None => {
                    proof {
                        assert(merged.deep_view() =~= prev + Seq::<EntityRowView>::empty());
                    }
                }
            }
            i += 1;
        }
        proof {
            assert(ms.take(n as int) =~= ms);
        }
        let ghost olds = spec_existing_rows::<T>(pre, ms, now as int);
        let ghost newrows = rows_of::<T>(seq_views(new_entities@), now as int);
        let nn = new_entities.len();
        let mut j: usize = 0;
        while j < nn
            invariant
                nn == new_entities@.len(),
                0 <= j <= nn,
                self == old(self),
                newrows == rows_of::<T>(seq_views(new_entities@), now as int),
                merged.deep_view() == spec_merge_rows(olds, newrows.take(j as int)),
            decreases nn - j,
        {
            let e = &new_entities[j];
            let row = EntityRow {
                entity_type: T::entity_type(),
                entity_key: e.cache_key(),
                data: encode_entity(e),
                updated_at: e.updated_at(),
                cached_at: now,
            };
            proof {
                assert(seq_views(new_entities@)[j as int] == new_entities@[j as int]@);
                assert(row@ =~= newrows[j as int]);
                lemma_merge_rows_push(olds, newrows.take(j as int), newrows[j as int]);
                assert(newrows.take(j as int).push(newrows[j as int]) =~= newrows.take(
                    j as int + 1,
                ));
            }
            let ghost mv = merged.deep_view();
            match row_key_index(&merged, row.entity_key.as_str()) {
                Some(idx) => {
                    proof {
                        assert(has_row_key(mv, row@.entity_key));
                        lemma_replace_row_at(mv, row@, idx as int);
                    }
                    let _ = merged.remove(idx);
                    merged.insert(idx, row);
                    proof {
                        assert(merged.deep_view() =~= mv.update(idx as int, row@));
                    }
                }
                None => {
                    merged.insert(0, row);
                    proof {
                        assert(merged.deep_view() =~= seq![row@] + mv);
                    }
                }
            }
            j += 1;
        }
        proof {
            assert(newrows.take(nn as int) =~= newrows);
        }
        let ghost mergedv = spec_merge_rows(olds, newrows);
        let mn = merged.len();
        let mut i2: usize = 0;
        while i2 < mn
            invariant
                mn == merged@.len(),
                0 <= i2 <= mn,
                merged.deep_view() == mergedv,
                self.queries() == preq,
                self.entities() == spec_upsert_rows(pre, mergedv.take(i2 as int)),
            decreases mn - i2,
        {
            let row = clone_entity_row(&merged[i2]);
            proof {
                lemma_upsert_rows_push(pre, mergedv.take(i2 as int), mergedv[i2 as int]);
                assert(mergedv.take(i2 as int).push(mergedv[i2 as int]) =~= mergedv.take(
                    i2 as int + 1,
                ));
            }
            self.upsert_entity_row(row);
            i2 += 1;
        }
        proof {
            assert(mergedv.take(mn as int) =~= mergedv);
        }
        let mut keys: Vec<String> = Vec::new();
        let mut i3: usize = 0;
        while i3 < mn
            invariant
                mn == merged@.len(),
                0 <= i3 <= mn,
                merged.deep_view() == mergedv,
                keys.deep_view() == keys_of_rows(mergedv).take(i3 as int),
            decreases mn - i3,
        {
            keys.push(merged[i3].entity_key.clone());
            proof {
                assert(keys.deep_view() =~= keys_of_rows(mergedv).take(i3 as int + 1));
            }
            i3 += 1;
        }
        proof {
            assert(keys_of_rows(mergedv).take(mn as int) =~= keys_of_rows(mergedv));
        }
        let mut mu: Option<String> = None;
        let mut j2: usize = mn;
        proof {
            assert(mergedv.skip(mn as int) =~= Seq::<EntityRowView>::empty());
            assert(max_of_rows(Seq::<EntityRowView>::empty()) is None);
        }
        while j2 > 0
            invariant
                0 <= j2 <= mn,
                mn == merged@.len(),
                merged.deep_view() == mergedv,
                opt_view(mu) == max_of_rows(mergedv.skip(j2 as int)),
            decreases j2,
        {
            j2 -= 1;
            let u = crate::jira_types::clone_opt(&merged[j2].updated_at);
            mu = max_opt(u, mu);
            proof {
                assert(mergedv.skip(j2 as int)[0] == mergedv[j2 as int]);
                assert(mergedv.skip(j2 as int).drop_first() =~= mergedv.skip(j2 as int + 1));
            }
        }
        let qr = QueryRow {
            query_hash: key.to_owned(),
            description: key.to_owned(),
            entity_type: et,
            max_updated: mu,
            cached_at: now,
            members: keys,
        };
        proof {
            assert(qr@ =~= spec_query_row_of_rows::<T>(key@, mergedv, now as int));
        }
        self.upsert_query_row(qr);
        Ok(())
    }
}

} // verus!
