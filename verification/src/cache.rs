//! Core contract and result types of the caching system.
//!
//! [`Cacheable`] is the entity contract: a cache key, an optional version
//! stamp, a type-level namespace, and a field-record serialization whose
//! decoding provably inverts encoding. [`CacheResult`] wraps fetched data
//! with its provenance ([`CacheSource`]).

use vstd::prelude::*;
use crate::codec::{
    FieldValue, FieldView, fields_bounded, record_decode, record_encode, spec_record_decode,
    spec_record_encode, lemma_record_round_trip,
};

verus! {

/// The views of a sequence of values.
pub open spec fn seq_views<T: View>(s: Seq<T>) -> Seq<T::V> {
    Seq::new(s.len(), |i: int| s[i]@)
}

/// The view of an optional string.
pub open spec fn opt_view(o: Option<String>) -> Option<Seq<char>> {
    match o {
        Some(s) => Some(s@),
        None => None,
    }
}

/// Contract for entities that can be cached.
///
/// An implementor ties its mathematical view (`View::V`) to a unique cache
/// key, an optional modification stamp used for incremental fetching, a
/// type-level namespace, and a field-record serialization. The
/// [`Cacheable::lemma_fields_round_trip`] obligation makes deserialization
/// invert serialization, which the storage engine relies on.
pub trait Cacheable: View + Sized {
    /// Cache key of a value with view `v`.
    spec fn spec_key_of(v: Self::V) -> Seq<char>;

    /// Version stamp of a value with view `v`.
    spec fn spec_updated_of(v: Self::V) -> Option<Seq<char>>;

    /// Namespace for this entity type in storage.
    spec fn spec_entity_type() -> Seq<char>;

    /// The field record a value with view `v` serializes to.
    spec fn spec_fields_of(v: Self::V) -> Seq<FieldView>;

    /// Which views a field record deserializes to.
    spec fn spec_from_fields(fs: Seq<FieldView>) -> Option<Self::V>;

    /// Unique identifier of this entity within its type.
    fn cache_key(&self) -> (r: String)
        ensures
            r@ == Self::spec_key_of(self@),
    ;

    /// Last modification stamp, or `None` for types without one.
    fn updated_at(&self) -> (r: Option<String>)
        ensures
            opt_view(r) == Self::spec_updated_of(self@),
    ;

    /// Namespace for this entity type in storage.
    fn entity_type() -> (r: String)
        ensures
            r@ == Self::spec_entity_type(),
    ;

    /// Serialize to a field record.
    fn to_fields(&self) -> (r: Vec<FieldValue>)
        ensures
            r.deep_view() == Self::spec_fields_of(self@),
    ;

    /// Deserialize from a field record.
    fn from_fields(fs: &Vec<FieldValue>) -> (r: Option<Self>)
        ensures
            match r {
                Some(w) => Self::spec_from_fields(fs.deep_view()) == Some(w@),
                None => Self::spec_from_fields(fs.deep_view()) is None,
            },
    ;

    /// Deserializing a serialized value yields the value back.
    proof fn lemma_fields_round_trip(v: Self::V)
        ensures
            Self::spec_from_fields(Self::spec_fields_of(v)) == Some(v),
    ;
}

/// The byte payload a value with view `v` is stored under.
pub open spec fn spec_encode_of<T: Cacheable>(v: T::V) -> Seq<u8> {
    spec_record_encode(T::spec_fields_of(v))
}

/// The views a stored byte payload decodes to.
pub open spec fn spec_decode_of<T: Cacheable>(d: Seq<u8>) -> Option<T::V> {
    match spec_record_decode(d) {
        Some(fs) => T::spec_from_fields(fs),
        None => None,
    }
}

/// Serialize an entity to its storage payload.
pub fn encode_entity<T: Cacheable>(e: &T) -> (r: Vec<u8>)
    ensures
        r@ == spec_encode_of::<T>(e@),
        fields_bounded(T::spec_fields_of(e@)),
{
    let fs = e.to_fields();
    record_encode(&fs)
}

/// Deserialize an entity from its storage payload.
pub fn decode_entity<T: Cacheable>(d: &Vec<u8>) -> (r: Option<T>)
    ensures
        match r {
            Some(w) => spec_decode_of::<T>(d@) == Some(w@),
            None => spec_decode_of::<T>(d@) is None,
        },
{
    match record_decode(d) {
        Some(fs) => T::from_fields(&fs),
        None => None,
    }
}

/// Round trip at the byte level: decoding an encoded entity returns its view.
pub proof fn lemma_entity_round_trip<T: Cacheable>(v: T::V)
    requires
        fields_bounded(T::spec_fields_of(v)),
    ensures
        spec_decode_of::<T>(spec_encode_of::<T>(v)) == Some(v),
{
    lemma_record_round_trip(T::spec_fields_of(v));
    T::lemma_fields_round_trip(v);
}

/// Indicates where returned data came from.
#[derive(Debug, Clone, Copy, PartialEq, Eq, Structural)]
pub enum CacheSource {
    /// Fresh data from the network.
    Network,
    /// Data from cache, still considered fresh.
    CacheFresh,
    /// Data from cache, considered stale.
    CacheStale,
    /// Network unavailable; stale cached data served instead.
    Offline,
}

/// Result of a cache operation: the data plus provenance metadata.
#[derive(Debug, Clone)]
pub struct CacheResult<T> {
    /// The actual data.
    pub data: T,
    /// Where the data came from.
    pub source: CacheSource,
    /// When the data was cached (seconds; `None` for network data).
    pub cached_at: Option<i64>,
}

impl<T> CacheResult<T> {
    /// Wrap data that was just fetched from the network.
    pub fn from_network(data: T) -> (r: Self)
        ensures
            r.data == data,
            r.source == CacheSource::Network,
            r.cached_at is None,
    {
        CacheResult { data, source: CacheSource::Network, cached_at: None }
    }

    /// Wrap data served from the cache.
    pub fn from_cache(data: T, cached_at: i64, is_stale: bool) -> (r: Self)
        ensures
            r.data == data,
            r.source == (if is_stale {
                CacheSource::CacheStale
            } else {
                CacheSource::CacheFresh
            }),
            r.cached_at == Some(cached_at),
    {
        CacheResult {
            data,
            source: if is_stale {
                CacheSource::CacheStale
            } else {
                CacheSource::CacheFresh
            },
            cached_at: Some(cached_at),
        }
    }

    /// Wrap stale cached data served because the network failed.
    pub fn offline(data: T, cached_at: i64) -> (r: Self)
        ensures
            r.data == data,
            r.source == CacheSource::Offline,
            r.cached_at == Some(cached_at),
    {
        CacheResult { data, source: CacheSource::Offline, cached_at: Some(cached_at) }
    }
}

} // verus!
