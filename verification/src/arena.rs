//! Storage shared by all paged backends: page buffers plus the page table.
//!
//! Pages live in a growing vector and are designated by their slot, a stable
//! handle: once a page index is mapped to a slot, the mapping never changes
//! and the slot never moves for the rest of the run. The hot-page caches rely
//! on exactly this stability — they remember slots, not references, and
//! re-derive the live buffer from the slot on every access.

use vstd::prelude::*;
use crate::PAGE_SIZE;
use crate::model;
use crate::model::PageMap;
use crate::table::PageIndexTable;

verus! {

/// A freshly allocated page: `PAGE_SIZE` zero bytes.
fn zero_page_vec() -> (r: Vec<u8>)
    ensures
        r@ == model::zero_page(),
{
    let mut v: Vec<u8> = Vec::new();
    let mut i: usize = 0;
    while i < PAGE_SIZE
        invariant
            i <= PAGE_SIZE,
            v@.len() == i,
            forall|j: int| 0 <= j < i ==> v@[j] == 0u8,
        decreases PAGE_SIZE - i,
    {
        v.push(0);
        i = i + 1;
    }
    proof {
        assert(v@ =~= model::zero_page());
    }
    v
}

/// Page buffers and the table mapping page indices to their slots.
pub struct PageArena {
    table: PageIndexTable,
    pages: Vec<Vec<u8>>,
}

impl View for PageArena {
    type V = PageMap;

    closed spec fn view(&self) -> PageMap {
        Map::new(
            |pid: u64| self.table@.contains_key(pid),
            |pid: u64| self.pages@[self.table@[pid] as int]@,
        )
    }
}

impl PageArena {
    /// Every mapped page index is one an address can have and points at a
    /// distinct, in-range slot holding a full page buffer.
    pub closed spec fn wf(self) -> bool {
        &&& forall|p: u64| #[trigger] self.table@.contains_key(p)
            ==> self.table@[p] < self.pages@.len()
                && self.pages@[self.table@[p] as int]@.len() == PAGE_SIZE
                && p <= model::MAX_PAGE_IDX
        &&& forall|p1: u64, p2: u64|
            #![trigger self.table@[p1], self.table@[p2]]
            self.table@.contains_key(p1) && self.table@.contains_key(p2) && p1 != p2
                ==> self.table@[p1] != self.table@[p2]
    }

    /// The slot of a mapped page index.
    pub closed spec fn slot_of(self, pid: u64) -> usize {
        self.table@[pid]
    }

    /// A well-formed arena presents a well-formed page map.
    pub proof fn lemma_wf_page_map(self)
        requires
            self.wf(),
        ensures
            model::page_map_wf(self@),
    {
    }

    /// An empty arena around a fresh table.
    pub fn from_table(t: PageIndexTable) -> (a: Self)
        requires
            t@ == Map::<u64, usize>::empty(),
        ensures
            a.wf(),
            a@ == Map::<u64, Seq<u8>>::empty(),
    {
        let a = PageArena { table: t, pages: Vec::new() };
        proof {
            assert(a@ =~= Map::<u64, Seq<u8>>::empty());
        }
        a
    }

    /// Looks up the slot of a page index, without allocating.
    pub fn lookup(&self, pid: u64) -> (r: Option<usize>)
        requires
            self.wf(),
        ensures
            match r {
                Some(slot) => self@.contains_key(pid) && slot == self.slot_of(pid),
                None => !self@.contains_key(pid),
            },
    {
        self.table.get(pid)
    }

    /// The slot of `pid`, allocating a zeroed page for it if absent. Already
    /// mapped pages, and their slots, are untouched: allocation is monotonic.
    pub fn ensure_page(&mut self, pid: u64) -> (slot: usize)
        requires
            old(self).wf(),
            pid <= model::MAX_PAGE_IDX,
        ensures
            final(self).wf(),
            final(self)@.contains_key(pid),
            slot == final(self).slot_of(pid),
            final(self)@ == if old(self)@.contains_key(pid) {
                old(self)@
            } else {
                old(self)@.insert(pid, model::zero_page())
            },
            forall|p: u64| #[trigger] old(self)@.contains_key(p)
                ==> final(self)@.contains_key(p) && final(self).slot_of(p) == old(self).slot_of(p),
    {
        match self.table.get(pid) {
            Some(slot) => {
                proof {
                    assert(self@ =~= old(self)@);
                }
                slot
            },
            None => {
                let slot = self.pages.len();
                let page = zero_page_vec();
                self.pages.push(page);
                self.table.insert(pid, slot);
                proof {
                    assert(self@ =~= old(self)@.insert(pid, model::zero_page()));
                }
                slot
            },
        }
    }

    /// Reads one byte of the page held in `slot`; `pid` names the page index
    /// the slot belongs to.
    pub fn read_byte(&self, slot: usize, off: usize, Ghost(pid): Ghost<u64>) -> (b: u8)
        requires
            self.wf(),
            self@.contains_key(pid),
            slot == self.slot_of(pid),
            off < PAGE_SIZE,
        ensures
            b == self@[pid][off as int],
    {
        self.pages[slot][off]
    }

    /// Writes one byte of the page held in `slot`; `pid` names the page index
    /// the slot belongs to. No other page changes, and no slot moves.
    pub fn write_byte(&mut self, slot: usize, off: usize, b: u8, Ghost(pid): Ghost<u64>)
        requires
            old(self).wf(),
            old(self)@.contains_key(pid),
            slot == old(self).slot_of(pid),
            off < PAGE_SIZE,
        ensures
            final(self).wf(),
            final(self)@ == old(self)@.insert(pid, old(self)@[pid].update(off as int, b)),
            final(self)@.dom() == old(self)@.dom(),
            forall|p: u64| #[trigger] old(self)@.contains_key(p)
                ==> final(self)@.contains_key(p) && final(self).slot_of(p) == old(self).slot_of(p),
    {
        self.pages[slot][off] = b;
        proof {
            assert(self@ =~= old(self)@.insert(pid, old(self)@[pid].update(off as int, b)));
            assert(self@.dom() =~= old(self)@.dom());
        }
    }

    /// Appends `count` bytes of the page held in `slot`, starting at
    /// `offset`, to `out`; `pid` names the page index the slot belongs to.
    pub fn read_segment(
        &self,
        slot: usize,
        offset: usize,
        count: usize,
        out: &mut Vec<u8>,
        Ghost(pid): Ghost<u64>,
    )
        requires
            self.wf(),
            self@.contains_key(pid),
            slot == self.slot_of(pid),
            offset + count <= PAGE_SIZE,
        ensures
            final(out)@.len() == old(out)@.len() + count,
            forall|j: int| 0 <= j < old(out)@.len() ==> final(out)@[j] == old(out)@[j],
            forall|k: int|
                0 <= k < count ==> #[trigger] final(out)@[old(out)@.len() + k]
                    == self@[pid][offset + k],
    {
        let mut k: usize = 0;
        while k < count
            invariant
                self.wf(),
                self@.contains_key(pid),
                slot == self.slot_of(pid),
                offset + count <= PAGE_SIZE,
                k <= count,
                out@.len() == old(out)@.len() + k,
                forall|j: int| 0 <= j < old(out)@.len() ==> out@[j] == old(out)@[j],
                forall|j: int|
                    0 <= j < k ==> #[trigger] out@[old(out)@.len() + j] == self@[pid][offset + j],
            decreases count - k,
        {
            let b = self.read_byte(slot, offset + k, Ghost(pid));
            out.push(b);
            k = k + 1;
        }
    }

    /// Copies `count` bytes of `data`, starting at `src`, into the page held
    /// in `slot` at `offset`; `pid` names the page index the slot belongs to.
    /// Only that byte range of that one page changes.
    pub fn write_segment(
        &mut self,
        slot: usize,
        offset: usize,
        data: &Vec<u8>,
        src: usize,
        count: usize,
        Ghost(pid): Ghost<u64>,
    )
        requires
            old(self).wf(),
            old(self)@.contains_key(pid),
            slot == old(self).slot_of(pid),
            offset + count <= PAGE_SIZE,
            src + count <= data@.len(),
        ensures
            final(self).wf(),
            final(self)@.dom() == old(self)@.dom(),
            forall|p: u64| #[trigger] old(self)@.contains_key(p)
                ==> final(self)@.contains_key(p) && final(self).slot_of(p) == old(self).slot_of(p),
            final(self)@[pid].len() == old(self)@[pid].len(),
            forall|o: int|
                0 <= o < old(self)@[pid].len() ==> #[trigger] final(self)@[pid][o]
                    == if offset <= o < offset + count {
                        data@[src + (o - offset)]
                    } else {
                        old(self)@[pid][o]
                    },
            forall|p: u64| #[trigger] old(self)@.contains_key(p) && p != pid
                ==> final(self)@[p] == old(self)@[p],
    {
        let dlen = data.len();
        let mut k: usize = 0;
        while k < count
            invariant
                self.wf(),
                self@.contains_key(pid),
                slot == self.slot_of(pid),
                offset + count <= PAGE_SIZE,
                src + count <= dlen,
                dlen == data@.len(),
                k <= count,
                self@.dom() == old(self)@.dom(),
                forall|p: u64| #[trigger] old(self)@.contains_key(p)
                    ==> self@.contains_key(p) && self.slot_of(p) == old(self).slot_of(p),
                self@[pid].len() == old(self)@[pid].len(),
                forall|o: int|
                    0 <= o < old(self)@[pid].len() ==> #[trigger] self@[pid][o]
                        == if offset <= o < offset + k {
                            data@[src + (o - offset)]
                        } else {
                            old(self)@[pid][o]
                        },
                forall|p: u64| #[trigger] old(self)@.contains_key(p) && p != pid
                    ==> self@[p] == old(self)@[p],
            decreases count - k,
        {
            let b = data[src + k];
            self.write_byte(slot, offset + k, b, Ghost(pid));
            k = k + 1;
        }
    }
}

/// Appends `count` zero bytes to `out`.
pub fn push_zero_bytes(out: &mut Vec<u8>, count: usize)
    ensures
        final(out)@.len() == old(out)@.len() + count,
        forall|j: int| 0 <= j < old(out)@.len() ==> final(out)@[j] == old(out)@[j],
        forall|k: int| 0 <= k < count ==> #[trigger] final(out)@[old(out)@.len() + k] == 0u8,
{
    let mut k: usize = 0;
    while k < count
        invariant
            k <= count,
            out@.len() == old(out)@.len() + k,
            forall|j: int| 0 <= j < old(out)@.len() ==> out@[j] == old(out)@[j],
            forall|j: int| 0 <= j < k ==> #[trigger] out@[old(out)@.len() + j] == 0u8,
        decreases count - k,
    {
        out.push(0);
        k = k + 1;
    }
}

} // verus!
