//! Sparse emulation of a flat 64-bit byte-addressable memory space.
//!
//! Memory is backed by fixed-size pages allocated lazily on write and held in
//! a page table keyed by page index. Backends differ in how they resolve a
//! page index to a page: directly through the table, or through a hot-page
//! cache that remembers recently resolved pages. A trace replayer decodes a
//! binary log of load/store operations and drives any backend with it.

use vstd::prelude::*;

use crate::model::PageMap;

mod arena;
pub mod model;
pub mod named_hasher;
pub mod noop;
pub mod paged;
pub mod paged_cache_line;
pub mod paged_last_cache;
pub mod table;
pub mod trace;

verus! {

/// Width of a page offset in bits.
pub const PAGE_SHIFT: u64 = 12;

/// Number of bytes in one page.
pub const PAGE_SIZE: usize = 4096;

/// Mask selecting the offset bits of an address.
pub const PAGE_MASK: u64 = 4095;

/// The address-space contract: typed loads and stores over the flat 64-bit
/// space, all values little-endian. An access whose last byte would fall
/// beyond the top of the address space is a contract violation and is ruled
/// out by precondition. A backend that models memory (`models_memory`)
/// presents its image as `mem_map`, and then every load returns that image's
/// bytes and every store updates exactly the written range — generic code,
/// the trace replayer above all, relies on this. A backend used only as a
/// timing baseline answers false and promises nothing of its values.
pub trait MemoryEmulator {
    /// The backend's internal validity; constructors establish it and every
    /// operation preserves it.
    spec fn wf(&self) -> bool;

    /// Whether the backend presents a faithful byte image through `mem_map`.
    spec fn models_memory() -> bool;

    /// The backend's abstract memory image.
    spec fn mem_map(&self) -> PageMap;

    /// Loads the byte at `addr`.
    fn load_u8(&mut self, addr: u64) -> (r: u8)
        requires
            old(self).wf(),
        ensures
            final(self).wf(),
            Self::models_memory() ==> r == crate::model::byte_at(old(self).mem_map(), addr)
                && final(self).mem_map() == old(self).mem_map(),
    ;

    /// Loads the little-endian 16-bit value at `addr`.
    fn load_u16(&mut self, addr: u64) -> (r: u16)
        requires
            old(self).wf(),
            addr + 1 <= u64::MAX,
        ensures
            final(self).wf(),
            Self::models_memory() ==> r == crate::model::u16_at(old(self).mem_map(), addr)
                && final(self).mem_map() == old(self).mem_map(),
    ;

    /// Loads the little-endian 32-bit value at `addr`.
    fn load_u32(&mut self, addr: u64) -> (r: u32)
        requires
            old(self).wf(),
            addr + 3 <= u64::MAX,
        ensures
            final(self).wf(),
            Self::models_memory() ==> r == crate::model::u32_at(old(self).mem_map(), addr)
                && final(self).mem_map() == old(self).mem_map(),
    ;

    /// Loads the little-endian 64-bit value at `addr`.
    fn load_u64(&mut self, addr: u64) -> (r: u64)
        requires
            old(self).wf(),
            addr + 7 <= u64::MAX,
        ensures
            final(self).wf(),
            Self::models_memory() ==> r == crate::model::u64_at(old(self).mem_map(), addr)
                && final(self).mem_map() == old(self).mem_map(),
    ;

    /// Stores a byte at `addr`.
    fn store_u8(&mut self, addr: u64, value: u8)
        requires
            old(self).wf(),
        ensures
            final(self).wf(),
            Self::models_memory() ==> crate::model::store_post(
                old(self).mem_map(),
                final(self).mem_map(),
                addr,
                seq![value],
            ),
    ;

    /// Stores a 16-bit value at `addr`, little-endian.
    fn store_u16(&mut self, addr: u64, value: u16)
        requires
            old(self).wf(),
            addr + 1 <= u64::MAX,
        ensures
            final(self).wf(),
            Self::models_memory() ==> crate::model::store_post(
                old(self).mem_map(),
                final(self).mem_map(),
                addr,
                crate::model::u16_le_seq(value),
            ),
    ;

    /// Stores a 32-bit value at `addr`, little-endian.
    fn store_u32(&mut self, addr: u64, value: u32)
        requires
            old(self).wf(),
            addr + 3 <= u64::MAX,
        ensures
            final(self).wf(),
            Self::models_memory() ==> crate::model::store_post(
                old(self).mem_map(),
                final(self).mem_map(),
                addr,
                crate::model::u32_le_seq(value),
            ),
    ;

    /// Stores a 64-bit value at `addr`, little-endian.
    fn store_u64(&mut self, addr: u64, value: u64)
        requires
            old(self).wf(),
            addr + 7 <= u64::MAX,
        ensures
            final(self).wf(),
            Self::models_memory() ==> crate::model::store_post(
                old(self).mem_map(),
                final(self).mem_map(),
                addr,
                crate::model::u64_le_seq(value),
            ),
    ;
}

} // verus!
