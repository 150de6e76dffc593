//! The shared TTL cache: a concurrent map from `(name, record type)` to the
//! verbatim answer set of some upstream, together with its expiry instant.
//!
//! The map itself is `dashmap::DashMap`; its behaviour is taken on trust
//! through the small wrappers below, and everything above them is verified
//! against the map abstraction `dm_contents`.

use vstd::prelude::*;
use dashmap::DashMap;
use crate::types::{Record, RecordV};

verus! {

#[verifier::external_type_specification]
#[verifier::external_body]
#[verifier::reject_recursive_types(K)]
#[verifier::reject_recursive_types(V)]
#[verifier::reject_recursive_types(S)]
pub struct ExDashMap<K, V, S>(DashMap<K, V, S>);

/// The concurrent map under the cache.
pub type CacheMap = DashMap<(Vec<u8>, u16), CacheEntry>;

/// One cache entry: the verbatim answer set returned by some upstream and
/// the monotonic instant, in seconds, at which it expires.
#[derive(Debug, PartialEq, Eq)]
pub struct CacheEntry {
    pub records: Vec<Record>,
    pub expires_at: u64,
}

/// The mathematical value of a [`CacheEntry`].
#[verifier::ext_equal]
pub struct CacheEntryV {
    pub records: Seq<RecordV>,
    pub expires_at: u64,
}

impl View for CacheEntry {
    type V = CacheEntryV;

    open spec fn view(&self) -> CacheEntryV {
        CacheEntryV { records: self.records.deep_view(), expires_at: self.expires_at }
    }
}

impl Clone for CacheEntry {
    fn clone(&self) -> (r: Self)
        ensures
            r@ == self@,
    {
        CacheEntry {
            records: crate::types::copy_records(&self.records),
            expires_at: self.expires_at,
        }
    }
}

/// Whether the entry is still live at the given instant.
pub fn entry_live(e: &CacheEntry, now: u64) -> (r: bool)
    ensures
        r == (e.expires_at > now),
{
    e.expires_at > now
}

/// What the map holds: the contents of a `DashMap` used as the cache,
/// keyed by the mathematical value of `(name, record type)`.
pub uninterp spec fn dm_contents(m: CacheMap) -> Map<
    (Seq<u8>, u16),
    CacheEntryV,
>;

/// Relies on dashmap::DashMap::new: the fresh map is empty.
#[verifier::external_body]
fn dm_new() -> (r: CacheMap)
    ensures
        dm_contents(r) =~= Map::empty(),
{
    DashMap::new()
}

/// Relies on dashmap::DashMap::get, with the equality that std derives for
/// `(Vec<u8>, u16)`: returns the entry under the key, if one is there.
#[verifier::external_body]
fn dm_get(m: &CacheMap, name: &Vec<u8>, rtype: u16) -> (r: Option<
    CacheEntry,
>)
    ensures
        match r {
            Some(e) => dm_contents(*m).contains_key((name@, rtype)) && e@ == dm_contents(
                *m,
            )[(name@, rtype)],
            None => !dm_contents(*m).contains_key((name@, rtype)),
        },
{
    m.get(&(name.clone(), rtype)).map(|e| e.value().clone())
}

/// Relies on dashmap::DashMap::insert: overwrites the entry under the key.
#[verifier::external_body]
fn dm_insert(m: &mut CacheMap, name: Vec<u8>, rtype: u16, e: CacheEntry)
    ensures
        dm_contents(*final(m)) == dm_contents(*old(m)).insert((name@, rtype), e@),
{
    m.insert((name, rtype), e);
}

/// Relies on dashmap::DashMap::remove: takes the entry under the key out.
#[verifier::external_body]
fn dm_remove(m: &mut CacheMap, name: &Vec<u8>, rtype: u16)
    ensures
        dm_contents(*final(m)) == dm_contents(*old(m)).remove((name@, rtype)),
{
    m.remove(&(name.clone(), rtype));
}

/// Relies on dashmap::DashMap::retain: keeps exactly the entries the
/// predicate accepts; the predicate is the verified `entry_live`.
#[verifier::external_body]
fn dm_retain_live(m: &mut CacheMap, now: u64)
    ensures
        forall|k: (Seq<u8>, u16)|
            dm_contents(*final(m)).contains_key(k) <==> (dm_contents(*old(m)).contains_key(k)
                && dm_contents(*old(m))[k].expires_at > now),
        forall|k: (Seq<u8>, u16)|
            dm_contents(*final(m)).contains_key(k) ==> dm_contents(*final(m))[k] == dm_contents(
                *old(m),
            )[k],
{
    m.retain(|_, v| entry_live(v, now));
}

/// Relies on dashmap::DashMap::iter: yields every entry exactly once, in no
/// fixed order; the wrapper copies each into a plain vector.
#[verifier::external_body]
fn dm_snapshot(m: &CacheMap) -> (r: Vec<(Vec<u8>, u16, CacheEntry)>)
    ensures
        forall|i: int|
            0 <= i < r@.len() ==> dm_contents(*m).contains_key((#[trigger] r@[i].0@, r@[i].1))
                && r@[i].2@ == dm_contents(*m)[(r@[i].0@, r@[i].1)],
        forall|k: (Seq<u8>, u16)|
            dm_contents(*m).contains_key(k) ==> exists|i: int|
                0 <= i < r@.len() && ((#[trigger] r@[i].0@, r@[i].1) == k),
        forall|i: int, j: int|
            #![all_triggers]
            0 <= i < j < r@.len() ==> (r@[i].0@, r@[i].1) != (r@[j].0@, r@[j].1),
{
    m.iter().map(|e| (e.key().0.clone(), e.key().1, e.value().clone())).collect()
}

/// The shared TTL cache. Keys are canonical names paired with a record
/// type code; values are verbatim answer sets with their expiry.
pub struct TtlCache {
    map: CacheMap,
}

impl View for TtlCache {
    type V = Map<(Seq<u8>, u16), CacheEntryV>;

    closed spec fn view(&self) -> Map<(Seq<u8>, u16), CacheEntryV> {
        dm_contents(self.map)
    }
}

impl TtlCache {
    /// A fresh, empty cache.
    pub fn new() -> (r: Self)
        ensures
            r@ == Map::<(Seq<u8>, u16), CacheEntryV>::empty(),
    {
        TtlCache { map: dm_new() }
    }

    /// The entry under `(name, rtype)`, live or not, if one is there.
    pub fn lookup(&self, name: &Vec<u8>, rtype: u16) -> (r: Option<CacheEntry>)
        ensures
            match r {
                Some(e) => self@.contains_key((name@, rtype)) && e@ == self@[(name@, rtype)],
                None => !self@.contains_key((name@, rtype)),
            },
    {
        dm_get(&self.map, name, rtype)
    }

    /// Inserts an entry, overwriting whatever the key held.
    pub fn insert(&mut self, name: Vec<u8>, rtype: u16, entry: CacheEntry)
        ensures
            final(self)@ == old(self)@.insert((name@, rtype), entry@),
    {
        dm_insert(&mut self.map, name, rtype, entry);
    }

    /// Removes the entry under the key, if one is there.
    pub fn remove(&mut self, name: &Vec<u8>, rtype: u16)
        ensures
            final(self)@ == old(self)@.remove((name@, rtype)),
    {
        dm_remove(&mut self.map, name, rtype);
    }

    /// Removes every entry whose expiry is at or before `now`.
    pub fn remove_expired(&mut self, now: u64)
        ensures
            forall|k: (Seq<u8>, u16)|
                final(self)@.contains_key(k) <==> (old(self)@.contains_key(k) && old(
                    self,
                )@[k].expires_at > now),
            forall|k: (Seq<u8>, u16)|
                final(self)@.contains_key(k) ==> final(self)@[k] == old(self)@[k],
    {
        dm_retain_live(&mut self.map, now);
    }

    /// A snapshot of the cache: every entry exactly once, in no fixed order.
    pub fn entries(&self) -> (r: Vec<(Vec<u8>, u16, CacheEntry)>)
        ensures
            forall|i: int|
                0 <= i < r@.len() ==> self@.contains_key((#[trigger] r@[i].0@, r@[i].1))
                    && r@[i].2@ == self@[(r@[i].0@, r@[i].1)],
            forall|k: (Seq<u8>, u16)|
                self@.contains_key(k) ==> exists|i: int|
                    0 <= i < r@.len() && ((#[trigger] r@[i].0@, r@[i].1) == k),
            forall|i: int, j: int|
                #![all_triggers]
                0 <= i < j < r@.len() ==> (r@[i].0@, r@[i].1) != (r@[j].0@, r@[j].1),
    {
        dm_snapshot(&self.map)
    }
}

/// The minimum TTL across a record list, in seconds; zero for an empty list.
pub open spec fn min_ttl_spec(rs: Seq<RecordV>) -> u32
    decreases rs.len(),
{
    if rs.len() == 0 {
        0
    } else if rs.len() == 1 {
        rs[0].ttl
    } else {
        let m = min_ttl_spec(rs.drop_last());
        if rs.last().ttl < m {
            rs.last().ttl
        } else {
            m
        }
    }
}

/// The minimum TTL across a non-empty record list.
pub fn min_ttl_of(rs: &Vec<Record>) -> (r: u32)
    requires
        rs@.len() > 0,
    ensures
        r == min_ttl_spec(rs.deep_view()),
{
    let ghost dv = rs.deep_view();
    let mut m = rs[0].ttl;
    assert(dv.take(1) =~= seq![dv[0]]);
    let mut i: usize = 1;
    while i < rs.len()
        invariant
            1 <= i <= rs@.len(),
            dv == rs.deep_view(),
            dv.len() == rs@.len(),
            m == min_ttl_spec(dv.take(i as int)),
        decreases rs.len() - i,
    {
        let t = rs[i].ttl;
        proof {
            assert(dv.take(i as int + 1).drop_last() =~= dv.take(i as int));
            assert(dv.take(i as int + 1).last() == dv[i as int]);
            assert(dv[i as int] == rs@[i as int]@);
        }
        if t < m {
            m = t;
        }
        i = i + 1;
    }
    assert(dv.take(rs@.len() as int) =~= dv);
    m
}

/// The entry a fresh answer set makes at `now`: the records verbatim,
/// expiring at `now` plus their minimum TTL.
pub open spec fn fresh_entry_spec(records: Seq<RecordV>, now: u64) -> CacheEntryV {
    CacheEntryV { records, expires_at: (now + min_ttl_spec(records)) as u64 }
}

/// Builds the cache entry for a fresh answer set taken at `now`.
pub fn make_fresh_entry(records: Vec<Record>, now: u64) -> (e: CacheEntry)
    requires
        records@.len() > 0,
        now + 0xffff_ffffu64 <= u64::MAX,
    ensures
        e@ == fresh_entry_spec(records.deep_view(), now),
{
    let ttl = min_ttl_of(&records);
    CacheEntry { records, expires_at: now + (ttl as u64) }
}

/// What a lookup through the handler path sees at `now`: the entry under
/// the key when it is still live, nothing otherwise.
pub open spec fn live_lookup(
    m: Map<(Seq<u8>, u16), CacheEntryV>,
    k: (Seq<u8>, u16),
    now: u64,
) -> Option<CacheEntryV> {
    if m.contains_key(k) && m[k].expires_at > now {
        Some(m[k])
    } else {
        None
    }
}

/// After inserting `(k, e)`, a lookup of `k` at any instant strictly before
/// `e.expires_at` returns exactly the records of `e`, and a lookup at or
/// after `e.expires_at` never serves the entry.
pub proof fn lemma_insert_then_lookup(
    m: Map<(Seq<u8>, u16), CacheEntryV>,
    k: (Seq<u8>, u16),
    e: CacheEntryV,
    t: u64,
)
    ensures
        t < e.expires_at ==> live_lookup(m.insert(k, e), k, t) == Some(e),
        t >= e.expires_at ==> live_lookup(m.insert(k, e), k, t) == None::<CacheEntryV>,
{
}

/// Cache idempotence: two lookups of the same key within the entry's
/// lifetime both hit, return identical answer sets, and need no further
/// upstream resolution.
pub proof fn lemma_cache_idempotence(
    m: Map<(Seq<u8>, u16), CacheEntryV>,
    k: (Seq<u8>, u16),
    e: CacheEntryV,
    t1: u64,
    t2: u64,
)
    requires
        t1 < e.expires_at,
        t2 < e.expires_at,
    ensures
        live_lookup(m.insert(k, e), k, t1) == live_lookup(m.insert(k, e), k, t2),
        live_lookup(m.insert(k, e), k, t1) == Some(e),
{
}

} // verus!
