//! Named, pluggable page-index hashing strategies.
//!
//! The page table's lookup performance depends on how page indices are
//! scattered into buckets. The choice is injected at construction time as a
//! strategy value; the memory backends never pick an algorithm themselves.
//! Page indices are already well-distributed integers, so one strategy
//! (`NoHashU64`) deliberately uses the index itself as its hash.

use vstd::prelude::*;
use crate::table::PageIndexTable;

verus! {

/// A page-index hashing strategy: a name for diagnostics and the capability
/// to build an empty page table using the strategy.
pub trait NamedHasher {
    /// A short name of the strategy.
    fn strategy_name(&self) -> &'static str;

    /// A fresh, empty page table that looks indices up with this strategy.
    fn fresh_table(&self) -> (t: PageIndexTable)
        ensures
            t@ == Map::<u64, usize>::empty(),
    ;
}

/// std's default SipHash-based hashing.
pub struct Sip;

/// Hashing by the `ahash` crate.
pub struct AHash;

/// Hashing by the `fxhash` crate.
pub struct FxHash;

/// The identity: a `u64` page index is its own hash.
pub struct NoHashU64;

impl NamedHasher for Sip {
    fn strategy_name(&self) -> (r: &'static str)
        ensures
            r@ == "SipHash"@,
    {
        proof {
            reveal_strlit("SipHash");
        }
        "SipHash"
    }

    fn fresh_table(&self) -> (t: PageIndexTable)
        ensures
            t@ == Map::<u64, usize>::empty(),
    {
        PageIndexTable::new_sip()
    }
}

impl NamedHasher for AHash {
    fn strategy_name(&self) -> (r: &'static str)
        ensures
            r@ == "AHash"@,
    {
        proof {
            reveal_strlit("AHash");
        }
        "AHash"
    }

    fn fresh_table(&self) -> (t: PageIndexTable)
        ensures
            t@ == Map::<u64, usize>::empty(),
    {
        PageIndexTable::new_ahash()
    }
}

impl NamedHasher for FxHash {
    fn strategy_name(&self) -> (r: &'static str)
        ensures
            r@ == "FxHash"@,
    {
        proof {
            reveal_strlit("FxHash");
        }
        "FxHash"
    }

    fn fresh_table(&self) -> (t: PageIndexTable)
        ensures
            t@ == Map::<u64, usize>::empty(),
    {
        PageIndexTable::new_fxhash()
    }
}

impl NamedHasher for NoHashU64 {
    fn strategy_name(&self) -> (r: &'static str)
        ensures
            r@ == "NoHashU64"@,
    {
        proof {
            reveal_strlit("NoHashU64");
        }
        "NoHashU64"
    }

    fn fresh_table(&self) -> (t: PageIndexTable)
        ensures
            t@ == Map::<u64, usize>::empty(),
    {
        PageIndexTable::new_nohash()
    }
}

} // verus!
