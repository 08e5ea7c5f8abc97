//! The page table: a sparse mapping from page index to page slot.
//!
//! The lookup strategy — which hash function scatters page indices into the
//! underlying hash map's buckets — is pluggable, chosen at construction time.
//! One variant is backed by std's default SipHash state and verified against
//! vstd's hash-map specification; the other three are backed by hashers of
//! outside crates and go through trusted wrappers, each justified by that
//! hasher being deterministic for the lifetime of one map.

use vstd::prelude::*;
use std::collections::HashMap;

verus! {

broadcast use vstd::std_specs::hash::group_hash_axioms;

#[verifier::external_type_specification]
#[verifier::external_body]
pub struct ExAhashRandomState(ahash::RandomState);

#[verifier::external_type_specification]
#[verifier::external_body]
pub struct ExFxHasher(fxhash::FxHasher);

#[verifier::external_type_specification]
#[verifier::external_body]
#[verifier::reject_recursive_types(T)]
pub struct ExNoHashHasher<T>(nohash_hasher::NoHashHasher<T>);

#[verifier::external_type_specification]
#[verifier::external_body]
#[verifier::reject_recursive_types(H)]
pub struct ExBuildHasherDefault<H>(core::hash::BuildHasherDefault<H>);

/// A sparse map from page index to the slot of that page, behind one of four
/// hashing strategies. Entries are only ever added, never removed.
pub enum PageIndexTable {
    /// std's default SipHash-backed map.
    Sip(HashMap<u64, usize>),
    /// Map hashed by `ahash::RandomState`.
    AHash(HashMap<u64, usize, ahash::RandomState>),
    /// Map hashed by `fxhash::FxBuildHasher`.
    FxHash(HashMap<u64, usize, fxhash::FxBuildHasher>),
    /// Map that uses the page index directly as its own hash.
    NoHashU64(HashMap<u64, usize, nohash_hasher::BuildNoHashHasher<u64>>),
}

/// A page-index map hashed by `ahash`.
type AhashMap = HashMap<u64, usize, ahash::RandomState>;

/// A page-index map hashed by `fxhash`.
type FxhashMap = HashMap<u64, usize, fxhash::FxBuildHasher>;

/// A page-index map that uses the key as its own hash.
type NohashMap = HashMap<u64, usize, nohash_hasher::BuildNoHashHasher<u64>>;

/// Relies on `HashMap::get` with `ahash::RandomState`, whose hashers are
/// deterministic for the lifetime of one map: `get` returns the mapped value
/// exactly when the key is present.
#[verifier::external_body]
fn ahash_map_get(m: &AhashMap, k: u64) -> (r: Option<usize>)
    ensures
        r == if m@.contains_key(k) {
            Some(m@[k])
        } else {
            None::<usize>
        },
{
    m.get(&k).copied()
}

/// Relies on `HashMap::insert` with `ahash::RandomState` (deterministic per
/// map): after the call the map holds `k` mapped to `v` and is otherwise
/// unchanged.
#[verifier::external_body]
fn ahash_map_insert(m: &mut AhashMap, k: u64, v: usize)
    ensures
        final(m)@ == old(m)@.insert(k, v),
{
    m.insert(k, v);
}

/// Relies on `HashMap::get` with `fxhash::FxBuildHasher`, a deterministic,
/// stateless hasher: `get` returns the mapped value exactly when the key is
/// present.
#[verifier::external_body]
fn fxhash_map_get(m: &FxhashMap, k: u64) -> (r: Option<usize>)
    ensures
        r == if m@.contains_key(k) {
            Some(m@[k])
        } else {
            None::<usize>
        },
{
    m.get(&k).copied()
}

/// Relies on `HashMap::insert` with `fxhash::FxBuildHasher` (deterministic):
/// after the call the map holds `k` mapped to `v` and is otherwise unchanged.
#[verifier::external_body]
fn fxhash_map_insert(m: &mut FxhashMap, k: u64, v: usize)
    ensures
        final(m)@ == old(m)@.insert(k, v),
{
    m.insert(k, v);
}

/// Relies on `HashMap::get` with `nohash_hasher::BuildNoHashHasher`, the
/// identity hash on `u64` (deterministic): `get` returns the mapped value
/// exactly when the key is present.
#[verifier::external_body]
fn nohash_map_get(m: &NohashMap, k: u64) -> (r: Option<usize>)
    ensures
        r == if m@.contains_key(k) {
            Some(m@[k])
        } else {
            None::<usize>
        },
{
    m.get(&k).copied()
}

/// Relies on `HashMap::insert` with `nohash_hasher::BuildNoHashHasher`
/// (deterministic): after the call the map holds `k` mapped to `v` and is
/// otherwise unchanged.
#[verifier::external_body]
fn nohash_map_insert(m: &mut NohashMap, k: u64, v: usize)
    ensures
        final(m)@ == old(m)@.insert(k, v),
{
    m.insert(k, v);
}

impl View for PageIndexTable {
    type V = Map<u64, usize>;

    closed spec fn view(&self) -> Map<u64, usize> {
        match self {
            PageIndexTable::Sip(m) => m@,
            PageIndexTable::AHash(m) => m@,
            PageIndexTable::FxHash(m) => m@,
            PageIndexTable::NoHashU64(m) => m@,
        }
    }
}

impl PageIndexTable {
    /// Looks a page index up, returning its slot if the index is mapped.
    pub fn get(&self, page_id: u64) -> (r: Option<usize>)
        ensures
            r == if self@.contains_key(page_id) {
                Some(self@[page_id])
            } else {
                None::<usize>
            },
    {
        match self {
            PageIndexTable::Sip(m) => {
                match m.get(&page_id) {
                    Some(s) => Some(*s),
                    None => None,
                }
            },
            PageIndexTable::AHash(m) => ahash_map_get(m, page_id),
            PageIndexTable::FxHash(m) => fxhash_map_get(m, page_id),
            PageIndexTable::NoHashU64(m) => nohash_map_get(m, page_id),
        }
    }

    /// Maps a page index to a slot, overwriting any earlier mapping.
    pub fn insert(&mut self, page_id: u64, slot: usize)
        ensures
            final(self)@ == old(self)@.insert(page_id, slot),
    {
        match self {
            PageIndexTable::Sip(m) => {
                m.insert(page_id, slot);
            },
            PageIndexTable::AHash(m) => ahash_map_insert(m, page_id, slot),
            PageIndexTable::FxHash(m) => fxhash_map_insert(m, page_id, slot),
            PageIndexTable::NoHashU64(m) => nohash_map_insert(m, page_id, slot),
        }
    }

    /// A fresh, empty table backed by std's default SipHash state.
    pub fn new_sip() -> (t: Self)
        ensures
            t@ == Map::<u64, usize>::empty(),
    {
        PageIndexTable::Sip(HashMap::new())
    }

    /// A fresh, empty table hashed by `ahash`.
    pub fn new_ahash() -> (t: Self)
        ensures
            t@ == Map::<u64, usize>::empty(),
    {
        PageIndexTable::AHash(HashMap::default())
    }

    /// A fresh, empty table hashed by `fxhash`.
    pub fn new_fxhash() -> (t: Self)
        ensures
            t@ == Map::<u64, usize>::empty(),
    {
        PageIndexTable::FxHash(HashMap::default())
    }

    /// A fresh, empty table that uses page indices as their own hashes.
    pub fn new_nohash() -> (t: Self)
        ensures
            t@ == Map::<u64, usize>::empty(),
    {
        PageIndexTable::NoHashU64(HashMap::default())
    }
}

} // verus!
