//! A backend that does nothing: a baseline for timing the replay driver
//! itself rather than any memory organisation.

use vstd::prelude::*;
use crate::MemoryEmulator;
use crate::model::PageMap;

verus! {

/// Drops every store and answers every load with one.
pub struct NoopMem {}

impl Default for NoopMem {
    fn default() -> (r: Self)
        ensures
            r.wf(),
    {
        NoopMem {  }
    }
}

impl MemoryEmulator for NoopMem {
    open spec fn wf(&self) -> bool {
        true
    }

    open spec fn models_memory() -> bool {
        false
    }

    open spec fn mem_map(&self) -> PageMap {
        Map::empty()
    }

    fn load_u8(&mut self, _addr: u64) -> (r: u8)
        ensures
            r == 1,
    {
        1
    }

    fn load_u16(&mut self, _addr: u64) -> (r: u16)
        ensures
            r == 1,
    {
        1
    }

    fn load_u32(&mut self, _addr: u64) -> (r: u32)
        ensures
            r == 1,
    {
        1
    }

    fn load_u64(&mut self, _addr: u64) -> (r: u64)
        ensures
            r == 1,
    {
        1
    }

    fn store_u8(&mut self, _addr: u64, _value: u8) {
    }

    fn store_u16(&mut self, _addr: u64, _value: u16) {
    }

    fn store_u32(&mut self, _addr: u64, _value: u32) {
    }

    fn store_u64(&mut self, _addr: u64, _value: u64) {
    }
}

} // verus!
