//! N-way direct-mapped hot-page cache backend.
//!
//! Keeps a fixed array of (page index, slot) pairs; the pair for page index
//! `p` lives at position `p mod N`, with N a power of two so the position is
//! a mask of the low bits. On a collision the old occupant is silently
//! evicted and replaced — deliberately no recency tracking: the mapping
//! function, not the replacement policy, is the performance lever, and a poor
//! N merely causes thrashing, never wrong answers. Slots are stable handles
//! into the arena, re-derived into live buffers on every access.

use vstd::prelude::*;
use vstd::arithmetic::power2::{lemma_pow2_pos, pow2};
use vstd::bits::{lemma_u64_low_bits_mask_is_mod, low_bits_mask};
use crate::{MemoryEmulator, PAGE_MASK, PAGE_SHIFT, PAGE_SIZE};
use crate::arena::{push_zero_bytes, PageArena};
use crate::model;
use crate::model::PageMap;
use crate::named_hasher::{NamedHasher, Sip};

verus! {

/// One cached resolution: a page index and the slot holding its page.
#[derive(Clone, Copy)]
struct CacheLine {
    page_id: u64,
    slot: usize,
}

/// `n` is a power of two.
pub open spec fn is_pow2(n: u64) -> bool {
    exists|k: nat| k < 64 && n == pow2(k)
}

/// The cache position of a page index: the index modulo the capacity.
pub open spec fn spec_cache_index(page_id: u64, capacity: u64) -> u64
    recommends
        capacity >= 1,
{
    page_id % capacity
}

/// For a power-of-two capacity, masking the low bits is the modulo.
proof fn lemma_pow2_mask_mod(x: u64, n: u64)
    requires
        is_pow2(n),
    ensures
        n >= 1,
        x & ((n - 1) as u64) == x % n,
        x % n < n,
{
    let k = choose|k: nat| k < 64 && n == pow2(k);
    lemma_pow2_pos(k);
    lemma_u64_low_bits_mask_is_mod(x, k);
    assert(low_bits_mask(k) == n - 1);
}

/// Map a page index to a cache position. The distribution of page indices
/// against the capacity is a performance lever: collisions evict, and a bad
/// fit causes thrashing.
pub fn cache_index(page_id: u64, capacity: usize) -> (r: usize)
    requires
        is_pow2(capacity as u64),
    ensures
        r == spec_cache_index(page_id, capacity as u64),
        r < capacity,
{
    proof {
        lemma_pow2_mask_mod(page_id, capacity as u64);
    }
    (page_id & ((capacity as u64) - 1)) as usize
}

/// Sparse paged memory with a direct-mapped cache of recently touched pages.
pub struct PagedMemoryCacheLine {
    arena: PageArena,
    cache: Vec<Option<CacheLine>>,
}

impl View for PagedMemoryCacheLine {
    type V = PageMap;

    closed spec fn view(&self) -> PageMap {
        self.arena@
    }
}

impl PagedMemoryCacheLine {
    /// The slot holding a mapped page: the stable handle the cache remembers.
    pub closed spec fn page_slot(self, page_id: u64) -> usize {
        self.arena.slot_of(page_id)
    }

    /// Every page mapped before is still mapped after, in the same slot: the
    /// buffer identity of mapped pages is stable.
    pub open spec fn slots_stable(pre: Self, post: Self) -> bool {
        forall|p: u64| #[trigger] pre@.contains_key(p)
            ==> post@.contains_key(p) && post.page_slot(p) == pre.page_slot(p)
    }

    /// The number of cache ways.
    pub closed spec fn spec_ways(self) -> int {
        self.cache@.len() as int
    }

    /// Whether the page's own cache position currently remembers `page_id`.
    pub closed spec fn has_cached(self, page_id: u64) -> bool {
        &&& self.cache@.len() >= 1
        &&& match self.cache@[spec_cache_index(page_id, self.cache@.len() as u64) as int] {
            Some(line) => line.page_id == page_id,
            None => false,
        }
    }

    /// How one page resolution relates the backend before (`pre`) to the
    /// backend after (`post`): the page is now mapped — freshly zeroed if it
    /// was absent — `slot` is its slot, no already mapped page moved, the
    /// page's cache position now remembers it, and a resolution its position
    /// already remembered changes nothing at all.
    pub open spec fn resolve_post(pre: Self, post: Self, page_id: u64, slot: usize) -> bool {
        &&& post@ == if pre@.contains_key(page_id) {
            pre@
        } else {
            pre@.insert(page_id, model::zero_page())
        }
        &&& post@.contains_key(page_id)
        &&& slot == post.page_slot(page_id)
        &&& Self::slots_stable(pre, post)
        &&& post.has_cached(page_id)
        &&& (pre.has_cached(page_id) ==> post == pre)
    }

    /// Cache-hit idempotence, write path: two consecutive resolutions of the
    /// same page index yield the same slot — the same underlying storage —
    /// and the second neither allocates nor changes any state.
    pub proof fn lemma_resolve_idempotent(
        m0: Self, m1: Self, m2: Self, page_id: u64, s1: usize, s2: usize,
    )
        requires
            Self::resolve_post(m0, m1, page_id, s1),
            Self::resolve_post(m1, m2, page_id, s2),
        ensures
            s2 == s1,
            m2 == m1,
    {
    }

    /// How one read-path lookup relates the backend before (`pre`) to the
    /// backend after (`post`): the image is untouched and no page moved; a
    /// mapped page comes back as its slot and is now cached at its position,
    /// an unmapped one as nothing, leaving the backend as it was; a lookup
    /// its position already remembered changes nothing at all.
    pub open spec fn lookup_post(pre: Self, post: Self, page_id: u64, r: Option<usize>) -> bool {
        &&& post@ == pre@
        &&& Self::slots_stable(pre, post)
        &&& match r {
            Some(slot) => pre@.contains_key(page_id) && slot == post.page_slot(page_id)
                && post.has_cached(page_id),
            None => !pre@.contains_key(page_id) && post == pre,
        }
        &&& (pre.has_cached(page_id) ==> post == pre)
    }

    /// Cache-hit idempotence, read path: two consecutive lookups of the same
    /// page index return the same slot — the same underlying storage — and
    /// the second changes nothing at all.
    pub proof fn lemma_lookup_idempotent(
        m0: Self, m1: Self, m2: Self, page_id: u64, r1: Option<usize>, r2: Option<usize>,
    )
        requires
            Self::lookup_post(m0, m1, page_id, r1),
            Self::lookup_post(m1, m2, page_id, r2),
        ensures
            r2 == r1,
            m2 == m1,
    {
    }

    /// An empty memory with `ways` cache positions (a power of two) whose
    /// page table uses the given hashing strategy.
    pub fn with_hasher<H: NamedHasher>(h: &H, ways: usize) -> (r: Self)
        requires
            is_pow2(ways as u64),
        ensures
            r.wf(),
            r@ == Map::<u64, Seq<u8>>::empty(),
            r.spec_ways() == ways,
    {
        let mut cache: Vec<Option<CacheLine>> = Vec::new();
        let mut i: usize = 0;
        while i < ways
            invariant
                i <= ways,
                cache@.len() == i,
                forall|j: int| 0 <= j < i ==> cache@[j] is None,
            decreases ways - i,
        {
            cache.push(None);
            i = i + 1;
        }
        let r = PagedMemoryCacheLine { arena: PageArena::from_table(h.fresh_table()), cache };
        proof {
            assert(r@ =~= Map::<u64, Seq<u8>>::empty());
        }
        r
    }

    /// Return the page index given the address.
    pub fn page_idx(addr: u64) -> (r: u64)
        ensures
            r == model::spec_page_idx(addr),
    {
        addr >> PAGE_SHIFT
    }

    /// Return the entry index within a page given an address.
    pub fn page_offset(addr: u64) -> (r: usize)
        ensures
            r == model::spec_page_offset(addr),
            r < PAGE_SIZE,
    {
        proof {
            model::lemma_page_offset_bound(addr);
        }
        (addr & PAGE_MASK) as usize
    }

    /// The slot of `page_id`, allocating a zeroed page if the index is not
    /// yet mapped. A hit in the page's cache position skips the table lookup;
    /// a miss resolves through the table and unconditionally replaces that
    /// position's occupant.
    pub fn resolve_page(&mut self, page_id: u64) -> (slot: usize)
        requires
            old(self).wf(),
            page_id <= model::MAX_PAGE_IDX,
        ensures
            final(self).wf(),
            Self::resolve_post(*old(self), *final(self), page_id, slot),
    {
        let c_i = cache_index(page_id, self.cache.len());
        let entry = self.cache[c_i];
        match entry {
            Some(line) if line.page_id == page_id => {
                proof {
                    assert(self.cache_line_ok(c_i as int));
                    assert(self@ =~= old(self)@);
                }
                line.slot
            },
            _ => {
                let slot = self.arena.ensure_page(page_id);
                self.cache[c_i] = Some(CacheLine { page_id, slot });
                proof {
                    assert forall|i: int| 0 <= i < self.cache@.len() implies self.cache_line_ok(
                        i,
                    ) by {
                        if i != c_i as int {
                            assert(old(self).cache_line_ok(i));
                        }
                    }
                }
                slot
            },
        }
    }

    /// The slot of `page_id` if the index is mapped, allocating nothing.
    /// A hit uses the cached pair; a resolved miss replaces the position's
    /// occupant; an unmapped page leaves the cache as it was.
    pub fn find_page(&mut self, page_id: u64) -> (r: Option<usize>)
        requires
            old(self).wf(),
        ensures
            final(self).wf(),
            Self::lookup_post(*old(self), *final(self), page_id, r),
    {
        let c_i = cache_index(page_id, self.cache.len());
        let entry = self.cache[c_i];
        match entry {
            Some(line) if line.page_id == page_id => {
                proof {
                    assert(self.cache_line_ok(c_i as int));
                }
                Some(line.slot)
            },
            _ => {
                match self.arena.lookup(page_id) {
                    Some(slot) => {
                        self.cache[c_i] = Some(CacheLine { page_id, slot });
                        proof {
                            assert forall|i: int|
                                0 <= i < self.cache@.len() implies self.cache_line_ok(i) by {
                                if i != c_i as int {
                                    assert(old(self).cache_line_ok(i));
                                }
                            }
                        }
                        Some(slot)
                    },
                    None => None,
                }
            },
        }
    }

    /// Read `n` contiguous bytes from memory, splitting the access into
    /// page-local segments; unmapped pages read as zero and nothing is
    /// allocated, though cache positions may move to resolved pages.
    pub fn read_n_bytes(&mut self, addr: u64, n: usize) -> (out: Vec<u8>)
        requires
            old(self).wf(),
            addr + n - 1 <= u64::MAX,
        ensures
            final(self).wf(),
            final(self)@ == old(self)@,
            Self::slots_stable(*old(self), *final(self)),
            out@.len() == n,
            forall|j: int|
                0 <= j < n ==> #[trigger] out@[j] == model::byte_at(old(self)@, (addr + j) as u64),
    {
        let mut out: Vec<u8> = Vec::new();
        let mut pos: usize = 0;
        while pos < n
            invariant
                self.wf(),
                self@ == old(self)@,
                Self::slots_stable(*old(self), *self),
                addr + n - 1 <= u64::MAX,
                pos <= n,
                out@.len() == pos,
                forall|j: int|
                    0 <= j < pos ==> #[trigger] out@[j] == model::byte_at(
                        old(self)@,
                        (addr + j) as u64,
                    ),
            decreases n - pos,
        {
            let curr_addr = addr + (pos as u64);
            let idx = Self::page_idx(curr_addr);
            let offset = Self::page_offset(curr_addr);
            let rem = n - pos;
            let room = PAGE_SIZE - offset;
            let chunk = if rem < room { rem } else { room };
            let ghost pre = out@;
            match self.find_page(idx) {
                Some(slot) => {
                    self.arena.read_segment(slot, offset, chunk, &mut out, Ghost(idx));
                },
                None => {
                    push_zero_bytes(&mut out, chunk);
                },
            }
            proof {
                assert forall|j: int| 0 <= j < pos + chunk implies #[trigger] out@[j]
                    == model::byte_at(old(self)@, (addr + j) as u64) by {
                    if pos <= j {
                        let k = j - pos;
                        model::lemma_same_page_step(curr_addr, k as u64);
                        let a = (curr_addr + k) as u64;
                        assert(a == (addr + j) as u64);
                        assert(model::spec_page_idx(a) == idx);
                        assert(model::spec_page_offset(a) == offset + k);
                        assert(out@[pre.len() + k] == model::byte_at(old(self)@, a));
                    }
                }
            }
            pos = pos + chunk;
        }
        out
    }

    /// Write the given bytes contiguously into memory starting at `addr`,
    /// splitting the access into page-local segments and allocating every
    /// page it touches, each resolved through its cache position.
    pub fn write_n_bytes(&mut self, addr: u64, bytes: &Vec<u8>)
        requires
            old(self).wf(),
            addr + bytes@.len() - 1 <= u64::MAX,
        ensures
            final(self).wf(),
            model::store_post(old(self)@, final(self)@, addr, bytes@),
            Self::slots_stable(*old(self), *final(self)),
    {
        let n = bytes.len();
        let mut pos: usize = 0;
        while pos < n
            invariant
                self.wf(),
                n == bytes@.len(),
                addr + n - 1 <= u64::MAX,
                pos <= n,
                Self::slots_stable(*old(self), *self),
                forall|p: u64|
                    #![trigger self@.contains_key(p)]
                    #![trigger old(self)@.contains_key(p)]
                    self@.contains_key(p) <==> old(self)@.contains_key(p) || model::page_in_range(
                        addr,
                        pos as int,
                        p,
                    ),
                forall|a: u64|
                    #[trigger] model::byte_at(self@, a) == if addr <= a && a < addr + pos {
                        bytes@[a - addr]
                    } else {
                        model::byte_at(old(self)@, a)
                    },
            decreases n - pos,
        {
            let curr_addr = addr + (pos as u64);
            let idx = Self::page_idx(curr_addr);
            let offset = Self::page_offset(curr_addr);
            let rem = n - pos;
            let room = PAGE_SIZE - offset;
            let chunk = if rem < room { rem } else { room };
            let ghost m_in = self@;
            let ghost self_in = *self;
            proof {
                model::lemma_page_idx_bound(curr_addr);
            }
            let slot = self.resolve_page(idx);
            proof {
                assert forall|a: u64|
                    model::byte_at(self@, a) == model::byte_at(m_in, a) by {
                    model::lemma_page_offset_bound(a);
                }
            }
            let ghost m_mid = self@;
            let ghost self_mid = *self;
            proof {
                self.arena.lemma_wf_page_map();
                assert(m_mid[idx].len() == PAGE_SIZE);
            }
            self.arena.write_segment(slot, offset, bytes, pos, chunk, Ghost(idx));
            proof {
                assert forall|i: int| 0 <= i < self.cache@.len() implies self.cache_line_ok(
                    i,
                ) by {
                    assert(self_mid.cache_line_ok(i));
                }
                assert forall|a: u64|
                    #[trigger] model::byte_at(self@, a) == (if addr <= a && a < addr + (pos
                        + chunk) {
                        bytes@[a - addr]
                    } else {
                        model::byte_at(old(self)@, a)
                    }) by {
                    model::lemma_page_offset_bound(a);
                    if addr + pos <= a && a < addr + pos + chunk {
                        let t = a - (addr + pos);
                        model::lemma_same_page_step(curr_addr, t as u64);
                        assert(a == (curr_addr + t) as u64);
                        assert(model::spec_page_idx(a) == idx);
                        assert(model::spec_page_offset(a) == offset + t);
                        assert(self@[idx][offset + t] == bytes@[pos + ((offset + t)
                            - offset)]);
                        assert(model::byte_at(self@, a) == bytes@[pos + t]);
                    } else {
                        if model::spec_page_idx(a) == idx && offset <= model::spec_page_offset(a)
                            && model::spec_page_offset(a) < offset + chunk {
                            let t = model::spec_page_offset(a) - offset;
                            model::lemma_same_page_step(curr_addr, t as u64);
                            model::lemma_addr_from_parts(a, (curr_addr + t) as u64);
                            assert(false);
                        }
                        assert(model::byte_at(self@, a) == model::byte_at(m_mid, a));
                        assert(model::byte_at(m_mid, a) == model::byte_at(m_in, a));
                    }
                }
            }
            proof {
                model::lemma_same_page_step(curr_addr, (chunk - 1) as u64);
                model::lemma_page_idx_monotone(addr, curr_addr);
                if pos > 0 {
                    let prev = (addr + pos - 1) as u64;
                    model::lemma_page_idx_monotone(addr, prev);
                    model::lemma_page_idx_adjacent(prev);
                }
                assert forall|p: u64|
                    self@.contains_key(p) <==> (old(self)@.contains_key(p)
                        || model::page_in_range(addr, (pos + chunk) as int, p)) by {
                    assert(m_mid.contains_key(p) <==> m_in.contains_key(p) || p == idx);
                }
                assert(Self::slots_stable(self_in, *self));
            }
            pos = pos + chunk;
        }
        proof {
            self.arena.lemma_wf_page_map();
        }
    }
}

impl PagedMemoryCacheLine {
    /// The cache position `i` is empty or holds a valid pair sitting at its
    /// own position.
    spec fn cache_line_ok(self, i: int) -> bool {
        match self.cache@[i] {
            Some(line) => self.arena@.contains_key(line.page_id) && line.slot
                == self.arena.slot_of(line.page_id) && spec_cache_index(
                line.page_id,
                self.cache@.len() as u64,
            ) == i,
            None => true,
        }
    }
}

impl MemoryEmulator for PagedMemoryCacheLine {
    open spec fn models_memory() -> bool {
        true
    }

    open spec fn mem_map(&self) -> PageMap {
        self.view()
    }

    closed spec fn wf(&self) -> bool {
        &&& self.arena.wf()
        &&& is_pow2(self.cache@.len() as u64)
        &&& forall|i: int| 0 <= i < self.cache@.len() ==> #[trigger] self.cache_line_ok(i)
    }

    fn load_u8(&mut self, addr: u64) -> (r: u8)
        ensures
            r == model::byte_at(old(self)@, addr),
            final(self)@ == old(self)@,
            Self::slots_stable(*old(self), *final(self)),
    {
        let out = self.read_n_bytes(addr, 1);
        out[0]
    }

    fn load_u16(&mut self, addr: u64) -> (r: u16)
        ensures
            r == model::u16_at(old(self)@, addr),
            final(self)@ == old(self)@,
            Self::slots_stable(*old(self), *final(self)),
    {
        let out = self.read_n_bytes(addr, 2);
        model::u16_from_le_parts(out[0], out[1])
    }

    fn load_u32(&mut self, addr: u64) -> (r: u32)
        ensures
            r == model::u32_at(old(self)@, addr),
            final(self)@ == old(self)@,
            Self::slots_stable(*old(self), *final(self)),
    {
        let out = self.read_n_bytes(addr, 4);
        model::u32_from_le_parts(out[0], out[1], out[2], out[3])
    }

    fn load_u64(&mut self, addr: u64) -> (r: u64)
        ensures
            r == model::u64_at(old(self)@, addr),
            final(self)@ == old(self)@,
            Self::slots_stable(*old(self), *final(self)),
    {
        let out = self.read_n_bytes(addr, 8);
        model::u64_from_le_parts(
            out[0], out[1], out[2], out[3], out[4], out[5], out[6], out[7],
        )
    }

    fn store_u8(&mut self, addr: u64, value: u8)
        ensures
            model::store_post(old(self)@, final(self)@, addr, seq![value]),
    {
        let bytes: Vec<u8> = vec![value];
        proof {
            assert(bytes@ =~= seq![value]);
        }
        self.write_n_bytes(addr, &bytes);
    }

    fn store_u16(&mut self, addr: u64, value: u16)
        ensures
            model::store_post(old(self)@, final(self)@, addr, model::u16_le_seq(value)),
    {
        let bytes = model::u16_to_le_bytes(value);
        self.write_n_bytes(addr, &bytes);
    }

    fn store_u32(&mut self, addr: u64, value: u32)
        ensures
            model::store_post(old(self)@, final(self)@, addr, model::u32_le_seq(value)),
    {
        let bytes = model::u32_to_le_bytes(value);
        self.write_n_bytes(addr, &bytes);
    }

    fn store_u64(&mut self, addr: u64, value: u64)
        ensures
            model::store_post(old(self)@, final(self)@, addr, model::u64_le_seq(value)),
    {
        let bytes = model::u64_to_le_bytes(value);
        self.write_n_bytes(addr, &bytes);
    }
}

} // verus!
