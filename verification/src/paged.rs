//! The uncached backend: every access resolves its page through the table.
//!
//! This is the reference backend: its externally observable behaviour is what
//! every cached variant must match, and its contracts — and theirs — are
//! stated over the one shared model in `model`. Reads of unmapped pages fill
//! with zeroes and allocate nothing; writes allocate every page they touch.

use vstd::prelude::*;
use crate::{MemoryEmulator, PAGE_MASK, PAGE_SHIFT, PAGE_SIZE};
use crate::arena::{push_zero_bytes, PageArena};
use crate::model;
use crate::model::PageMap;
use crate::named_hasher::{NamedHasher, Sip};

verus! {

/// Sparse paged memory resolved directly through the page table.
pub struct PagedMemory {
    arena: PageArena,
}

impl View for PagedMemory {
    type V = PageMap;

    closed spec fn view(&self) -> PageMap {
        self.arena@
    }
}

impl PagedMemory {
    /// The slot holding a mapped page: the stable handle of its buffer. Once
    /// a page is mapped, its slot never changes for the rest of the run.
    pub closed spec fn page_slot(self, page_id: u64) -> usize {
        self.arena.slot_of(page_id)
    }

    /// Every page mapped before is still mapped after, in the same slot: the
    /// buffer identity of mapped pages is stable.
    pub open spec fn slots_stable(pre: Self, post: Self) -> bool {
        forall|p: u64| #[trigger] pre@.contains_key(p)
            ==> post@.contains_key(p) && post.page_slot(p) == pre.page_slot(p)
    }

    /// An empty memory whose page table uses the given hashing strategy.
    pub fn with_hasher<H: NamedHasher>(h: &H) -> (r: Self)
        ensures
            r.wf(),
            r@ == Map::<u64, Seq<u8>>::empty(),
    {
        PagedMemory { arena: PageArena::from_table(h.fresh_table()) }
    }

    /// Return the page index given the address.
    pub fn page_idx(addr: u64) -> (r: u64)
        ensures
            r == model::spec_page_idx(addr),
    {
        addr >> PAGE_SHIFT
    }

    /// Return the entry index within a page given an address.
    pub fn page_offset(addr: u64) -> (r: usize)
        ensures
            r == model::spec_page_offset(addr),
            r < PAGE_SIZE,
    {
        proof {
            model::lemma_page_offset_bound(addr);
        }
        (addr & PAGE_MASK) as usize
    }

    /// Read `n` contiguous bytes from memory, splitting the access into
    /// page-local segments; unmapped pages read as zero and nothing is
    /// allocated.
    pub fn read_n_bytes(&self, addr: u64, n: usize) -> (out: Vec<u8>)
        requires
            self.wf(),
            addr + n - 1 <= u64::MAX,
        ensures
            out@.len() == n,
            forall|j: int|
                0 <= j < n ==> #[trigger] out@[j] == model::byte_at(self@, (addr + j) as u64),
    {
        let mut out: Vec<u8> = Vec::new();
        let mut pos: usize = 0;
        while pos < n
            invariant
                self.wf(),
                addr + n - 1 <= u64::MAX,
                pos <= n,
                out@.len() == pos,
                forall|j: int|
                    0 <= j < pos ==> #[trigger] out@[j] == model::byte_at(self@, (addr + j) as u64),
            decreases n - pos,
        {
            let curr_addr = addr + (pos as u64);
            let idx = Self::page_idx(curr_addr);
            let offset = Self::page_offset(curr_addr);
            let rem = n - pos;
            let room = PAGE_SIZE - offset;
            let chunk = if rem < room { rem } else { room };
            let ghost pre = out@;
            match self.arena.lookup(idx) {
                Some(slot) => {
                    self.arena.read_segment(slot, offset, chunk, &mut out, Ghost(idx));
                },
                None => {
                    push_zero_bytes(&mut out, chunk);
                },
            }
            proof {
                assert forall|j: int| 0 <= j < pos + chunk implies #[trigger] out@[j]
                    == model::byte_at(self@, (addr + j) as u64) by {
                    if pos <= j {
                        let k = j - pos;
                        model::lemma_same_page_step(curr_addr, k as u64);
                        let a = (curr_addr + k) as u64;
                        assert(a == (addr + j) as u64);
                        assert(model::spec_page_idx(a) == idx);
                        assert(model::spec_page_offset(a) == offset + k);
                        assert(out@[pre.len() + k] == model::byte_at(self@, a));
                    }
                }
            }
            pos = pos + chunk;
        }
        out
    }

    /// Write the given bytes contiguously into memory starting at `addr`,
    /// splitting the access into page-local segments and allocating every
    /// page it touches.
    pub fn write_n_bytes(&mut self, addr: u64, bytes: &Vec<u8>)
        requires
            old(self).wf(),
            addr + bytes@.len() - 1 <= u64::MAX,
        ensures
            final(self).wf(),
            model::store_post(old(self)@, final(self)@, addr, bytes@),
            Self::slots_stable(*old(self), *final(self)),
    {
        let n = bytes.len();
        let mut pos: usize = 0;
        while pos < n
            invariant
                self.wf(),
                n == bytes@.len(),
                addr + n - 1 <= u64::MAX,
                pos <= n,
                Self::slots_stable(*old(self), *self),
                forall|p: u64|
                    #![trigger self@.contains_key(p)]
                    #![trigger old(self)@.contains_key(p)]
                    self@.contains_key(p) <==> old(self)@.contains_key(p) || model::page_in_range(
                        addr,
                        pos as int,
                        p,
                    ),
                forall|a: u64|
                    #[trigger] model::byte_at(self@, a) == if addr <= a && a < addr + pos {
                        bytes@[a - addr]
                    } else {
                        model::byte_at(old(self)@, a)
                    },
            decreases n - pos,
        {
            let curr_addr = addr + (pos as u64);
            let idx = Self::page_idx(curr_addr);
            let offset = Self::page_offset(curr_addr);
            let rem = n - pos;
            let room = PAGE_SIZE - offset;
            let chunk = if rem < room { rem } else { room };
            let ghost m_in = self@;
            let ghost self_in = *self;
            proof {
                model::lemma_page_idx_bound(curr_addr);
            }
            let slot = self.arena.ensure_page(idx);
            proof {
                assert forall|a: u64|
                    model::byte_at(self@, a) == model::byte_at(m_in, a) by {
                    model::lemma_page_offset_bound(a);
                }
            }
            let ghost m_mid = self@;
            proof {
                self.arena.lemma_wf_page_map();
                assert(m_mid[idx].len() == PAGE_SIZE);
            }
            self.arena.write_segment(slot, offset, bytes, pos, chunk, Ghost(idx));
            proof {
                assert forall|a: u64|
                    #[trigger] model::byte_at(self@, a) == (if addr <= a && a < addr + (pos
                        + chunk) {
                        bytes@[a - addr]
                    } else {
                        model::byte_at(old(self)@, a)
                    }) by {
                    model::lemma_page_offset_bound(a);
                    if addr + pos <= a && a < addr + pos + chunk {
                        let t = a - (addr + pos);
                        model::lemma_same_page_step(curr_addr, t as u64);
                        assert(a == (curr_addr + t) as u64);
                        assert(model::spec_page_idx(a) == idx);
                        assert(model::spec_page_offset(a) == offset + t);
                        assert(self@[idx][offset + t] == bytes@[pos + ((offset + t)
                            - offset)]);
                        assert(model::byte_at(self@, a) == bytes@[pos + t]);
                    } else {
                        if model::spec_page_idx(a) == idx && offset <= model::spec_page_offset(a)
                            && model::spec_page_offset(a) < offset + chunk {
                            let t = model::spec_page_offset(a) - offset;
                            model::lemma_same_page_step(curr_addr, t as u64);
                            model::lemma_addr_from_parts(a, (curr_addr + t) as u64);
                            assert(false);
                        }
                        assert(model::byte_at(self@, a) == model::byte_at(m_mid, a));
                        assert(model::byte_at(m_mid, a) == model::byte_at(m_in, a));
                    }
                }
            }
            proof {
                model::lemma_same_page_step(curr_addr, (chunk - 1) as u64);
                model::lemma_page_idx_monotone(addr, curr_addr);
                if pos > 0 {
                    let prev = (addr + pos - 1) as u64;
                    model::lemma_page_idx_monotone(addr, prev);
                    model::lemma_page_idx_adjacent(prev);
                }
                assert forall|p: u64|
                    self@.contains_key(p) <==> (old(self)@.contains_key(p)
                        || model::page_in_range(addr, (pos + chunk) as int, p)) by {
                    assert(m_mid.contains_key(p) <==> m_in.contains_key(p) || p == idx);
                }
                assert(Self::slots_stable(self_in, *self));
            }
            pos = pos + chunk;
        }
        proof {
            self.arena.lemma_wf_page_map();
        }
    }
}

impl Default for PagedMemory {
    /// An empty memory with the default SipHash strategy.
    fn default() -> (r: Self)
        ensures
            r.wf(),
            r@ == Map::<u64, Seq<u8>>::empty(),
    {
        PagedMemory::with_hasher(&Sip)
    }
}

impl MemoryEmulator for PagedMemory {
    open spec fn models_memory() -> bool {
        true
    }

    open spec fn mem_map(&self) -> PageMap {
        self.view()
    }

    closed spec fn wf(&self) -> bool {
        self.arena.wf()
    }

    fn load_u8(&mut self, addr: u64) -> (r: u8)
        ensures
            r == model::byte_at(old(self)@, addr),
            *final(self) == *old(self),
    {
        let out = self.read_n_bytes(addr, 1);
        out[0]
    }

    fn load_u16(&mut self, addr: u64) -> (r: u16)
        ensures
            r == model::u16_at(old(self)@, addr),
            *final(self) == *old(self),
    {
        let out = self.read_n_bytes(addr, 2);
        model::u16_from_le_parts(out[0], out[1])
    }

    fn load_u32(&mut self, addr: u64) -> (r: u32)
        ensures
            r == model::u32_at(old(self)@, addr),
            *final(self) == *old(self),
    {
        let out = self.read_n_bytes(addr, 4);
        model::u32_from_le_parts(out[0], out[1], out[2], out[3])
    }

    fn load_u64(&mut self, addr: u64) -> (r: u64)
        ensures
            r == model::u64_at(old(self)@, addr),
            *final(self) == *old(self),
    {
        let out = self.read_n_bytes(addr, 8);
        model::u64_from_le_parts(
            out[0], out[1], out[2], out[3], out[4], out[5], out[6], out[7],
        )
    }

    fn store_u8(&mut self, addr: u64, value: u8)
        ensures
            model::store_post(old(self)@, final(self)@, addr, seq![value]),
    {
        let bytes: Vec<u8> = vec![value];
        proof {
            assert(bytes@ =~= seq![value]);
        }
        self.write_n_bytes(addr, &bytes);
    }

    fn store_u16(&mut self, addr: u64, value: u16)
        ensures
            model::store_post(old(self)@, final(self)@, addr, model::u16_le_seq(value)),
    {
        let bytes = model::u16_to_le_bytes(value);
        self.write_n_bytes(addr, &bytes);
    }

    fn store_u32(&mut self, addr: u64, value: u32)
        ensures
            model::store_post(old(self)@, final(self)@, addr, model::u32_le_seq(value)),
    {
        let bytes = model::u32_to_le_bytes(value);
        self.write_n_bytes(addr, &bytes);
    }

    fn store_u64(&mut self, addr: u64, value: u64)
        ensures
            model::store_post(old(self)@, final(self)@, addr, model::u64_le_seq(value)),
    {
        let bytes = model::u64_to_le_bytes(value);
        self.write_n_bytes(addr, &bytes);
    }
}

} // verus!
