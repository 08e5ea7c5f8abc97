//! Mathematical model of the flat 64-bit memory space.
//!
//! A memory image is modelled as a partial map from page index to page
//! contents (a 4096-byte sequence). An address whose page is absent reads as
//! zero. All multi-byte values are little-endian. The contracts of every
//! backend are stated over this one model, so that backends are
//! interchangeable by construction.

use vstd::prelude::*;
use crate::{PAGE_MASK, PAGE_SHIFT, PAGE_SIZE};

verus! {

/// Abstract memory image: page index to page contents.
pub type PageMap = Map<u64, Seq<u8>>;

/// The page index holding `addr`: the address without its offset bits.
pub open spec fn spec_page_idx(addr: u64) -> u64 {
    addr >> PAGE_SHIFT
}

/// The position of `addr` within its page: the low offset bits.
pub open spec fn spec_page_offset(addr: u64) -> u64 {
    addr & PAGE_MASK
}

/// A page freshly allocated: all zeroes.
pub open spec fn zero_page() -> Seq<u8> {
    Seq::new(PAGE_SIZE as nat, |i: int| 0u8)
}

/// The largest page index: the top address, without its offset bits.
pub const MAX_PAGE_IDX: u64 = 0x000F_FFFF_FFFF_FFFF;

/// Every page present in the image has exactly `PAGE_SIZE` bytes and an index
/// some address actually has.
pub open spec fn page_map_wf(m: PageMap) -> bool {
    forall|p: u64| #[trigger] m.contains_key(p) ==> m[p].len() == PAGE_SIZE && p <= MAX_PAGE_IDX
}

/// The byte visible at `addr`: the byte of its page if the page is present,
/// zero otherwise.
pub open spec fn byte_at(m: PageMap, addr: u64) -> u8 {
    if m.contains_key(spec_page_idx(addr)) {
        m[spec_page_idx(addr)][spec_page_offset(addr) as int]
    } else {
        0
    }
}

/// Little-endian composition of two bytes.
pub open spec fn u16_from_le(b0: u8, b1: u8) -> u16 {
    (b0 as u16) | ((b1 as u16) << 8)
}

/// Little-endian composition of four bytes.
pub open spec fn u32_from_le(b0: u8, b1: u8, b2: u8, b3: u8) -> u32 {
    (b0 as u32) | ((b1 as u32) << 8) | ((b2 as u32) << 16) | ((b3 as u32) << 24)
}

/// Little-endian composition of eight bytes.
pub open spec fn u64_from_le(
    b0: u8, b1: u8, b2: u8, b3: u8, b4: u8, b5: u8, b6: u8, b7: u8,
) -> u64 {
    (b0 as u64) | ((b1 as u64) << 8) | ((b2 as u64) << 16) | ((b3 as u64) << 24)
        | ((b4 as u64) << 32) | ((b5 as u64) << 40) | ((b6 as u64) << 48) | ((b7 as u64) << 56)
}

/// Byte `i` of the little-endian encoding of a 16-bit value.
pub open spec fn u16_le_byte(v: u16, i: int) -> u8 {
    if i == 0 {
        (v & 0xff) as u8
    } else {
        ((v >> 8) & 0xff) as u8
    }
}

/// Byte `i` of the little-endian encoding of a 32-bit value.
pub open spec fn u32_le_byte(v: u32, i: int) -> u8 {
    if i == 0 {
        (v & 0xff) as u8
    } else if i == 1 {
        ((v >> 8) & 0xff) as u8
    } else if i == 2 {
        ((v >> 16) & 0xff) as u8
    } else {
        ((v >> 24) & 0xff) as u8
    }
}

/// Byte `i` of the little-endian encoding of a 64-bit value.
pub open spec fn u64_le_byte(v: u64, i: int) -> u8 {
    if i == 0 {
        (v & 0xff) as u8
    } else if i == 1 {
        ((v >> 8) & 0xff) as u8
    } else if i == 2 {
        ((v >> 16) & 0xff) as u8
    } else if i == 3 {
        ((v >> 24) & 0xff) as u8
    } else if i == 4 {
        ((v >> 32) & 0xff) as u8
    } else if i == 5 {
        ((v >> 40) & 0xff) as u8
    } else if i == 6 {
        ((v >> 48) & 0xff) as u8
    } else {
        ((v >> 56) & 0xff) as u8
    }
}

/// The little-endian byte sequence of a 16-bit value.
pub open spec fn u16_le_seq(v: u16) -> Seq<u8> {
    seq![u16_le_byte(v, 0), u16_le_byte(v, 1)]
}

/// The little-endian byte sequence of a 32-bit value.
pub open spec fn u32_le_seq(v: u32) -> Seq<u8> {
    seq![u32_le_byte(v, 0), u32_le_byte(v, 1), u32_le_byte(v, 2), u32_le_byte(v, 3)]
}

/// The little-endian byte sequence of a 64-bit value.
pub open spec fn u64_le_seq(v: u64) -> Seq<u8> {
    seq![
        u64_le_byte(v, 0), u64_le_byte(v, 1), u64_le_byte(v, 2), u64_le_byte(v, 3),
        u64_le_byte(v, 4), u64_le_byte(v, 5), u64_le_byte(v, 6), u64_le_byte(v, 7),
    ]
}

/// The 16-bit little-endian value visible at `addr`.
pub open spec fn u16_at(m: PageMap, addr: u64) -> u16
    recommends
        addr + 1 <= u64::MAX,
{
    u16_from_le(byte_at(m, addr), byte_at(m, (addr + 1) as u64))
}

/// The 32-bit little-endian value visible at `addr`.
pub open spec fn u32_at(m: PageMap, addr: u64) -> u32
    recommends
        addr + 3 <= u64::MAX,
{
    u32_from_le(
        byte_at(m, addr),
        byte_at(m, (addr + 1) as u64),
        byte_at(m, (addr + 2) as u64),
        byte_at(m, (addr + 3) as u64),
    )
}

/// The 64-bit little-endian value visible at `addr`.
pub open spec fn u64_at(m: PageMap, addr: u64) -> u64
    recommends
        addr + 7 <= u64::MAX,
{
    u64_from_le(
        byte_at(m, addr),
        byte_at(m, (addr + 1) as u64),
        byte_at(m, (addr + 2) as u64),
        byte_at(m, (addr + 3) as u64),
        byte_at(m, (addr + 4) as u64),
        byte_at(m, (addr + 5) as u64),
        byte_at(m, (addr + 6) as u64),
        byte_at(m, (addr + 7) as u64),
    )
}

/// The page indices a byte range touches: for a non-empty range, exactly the
/// pages of its first and last address and those between.
pub open spec fn page_in_range(addr: u64, len: int, p: u64) -> bool
    recommends
        addr + len - 1 <= u64::MAX,
{
    len > 0 && spec_page_idx(addr) <= p <= spec_page_idx((addr + len - 1) as u64)
}

/// How a store of `data` at `addr` relates the image before (`pre`) to the
/// image after (`post`): exactly the bytes in `[addr, addr + data.len())`
/// change, taking their value from `data`, and exactly the pages that range
/// touches become — or stay — mapped; no page is ever removed.
pub open spec fn store_post(pre: PageMap, post: PageMap, addr: u64, data: Seq<u8>) -> bool {
    &&& page_map_wf(post)
    &&& forall|p: u64|
        #![trigger post.contains_key(p)]
        #![trigger pre.contains_key(p)]
        post.contains_key(p) <==> pre.contains_key(p) || page_in_range(
            addr,
            data.len() as int,
            p,
        )
    &&& forall|a: u64|
        #[trigger] byte_at(post, a) == if addr <= a && a < addr + data.len() {
            data[a - addr]
        } else {
            byte_at(pre, a)
        }
}

/// The address with page index `p` and offset `o`.
pub open spec fn addr_of(p: u64, o: u64) -> u64
    recommends
        p <= MAX_PAGE_IDX,
        o < PAGE_SIZE,
{
    (p << PAGE_SHIFT) | o
}

/// `addr_of` inverts address decomposition.
pub proof fn lemma_addr_of_parts(p: u64, o: u64)
    requires
        p <= MAX_PAGE_IDX,
        o < PAGE_SIZE,
    ensures
        spec_page_idx(addr_of(p, o)) == p,
        spec_page_offset(addr_of(p, o)) == o,
{
    assert(p <= 0x000F_FFFF_FFFF_FFFF && o < 4096 ==> ((p << 12) | o) >> 12 == p
        && ((p << 12) | o) & 4095 == o) by (bit_vector);
}

/// Page indices never exceed `MAX_PAGE_IDX`.
pub proof fn lemma_page_idx_bound(addr: u64)
    ensures
        spec_page_idx(addr) <= MAX_PAGE_IDX,
{
    assert(addr >> 12 <= 0x000F_FFFF_FFFF_FFFFu64) by (bit_vector);
}

/// The page index grows with the address.
pub proof fn lemma_page_idx_monotone(a: u64, b: u64)
    requires
        a <= b,
    ensures
        spec_page_idx(a) <= spec_page_idx(b),
{
    assert(a <= b ==> a >> 12 <= b >> 12) by (bit_vector);
}

/// Stepping one byte forward moves the page index by at most one.
pub proof fn lemma_page_idx_adjacent(a: u64)
    requires
        a + 1 <= u64::MAX,
    ensures
        spec_page_idx(a) <= spec_page_idx((a + 1) as u64) <= spec_page_idx(a) + 1,
{
    assert(a + 1 <= u64::MAX ==> a >> 12 <= ((a + 1) as u64) >> 12
        && ((a + 1) as u64) >> 12 <= (a >> 12) + 1) by (bit_vector);
}

/// The one image a store leaves: `data`'s bytes over the written range, the
/// old bytes elsewhere, over the old pages plus those the range touches.
pub open spec fn store_map(pre: PageMap, addr: u64, data: Seq<u8>) -> PageMap
    recommends
        addr + data.len() - 1 <= u64::MAX,
{
    Map::new(
        |p: u64| pre.contains_key(p) || page_in_range(addr, data.len() as int, p),
        |p: u64|
            Seq::new(
                PAGE_SIZE as nat,
                |o: int|
                    {
                        let a = addr_of(p, o as u64);
                        if addr <= a && a < addr + data.len() {
                            data[a - addr]
                        } else {
                            byte_at(pre, a)
                        }
                    },
            ),
    )
}

/// `store_map` itself meets the store relation: together with
/// `lemma_store_post_is_store_map` it is exactly the image a store leaves.
pub proof fn lemma_store_map_is_store_post(pre: PageMap, addr: u64, data: Seq<u8>)
    requires
        addr + data.len() - 1 <= u64::MAX,
        page_map_wf(pre),
    ensures
        store_post(pre, store_map(pre, addr, data), addr, data),
{
    let post = store_map(pre, addr, data);
    assert forall|p: u64| #[trigger] post.contains_key(p) implies post[p].len() == PAGE_SIZE && p
        <= MAX_PAGE_IDX by {
        if !pre.contains_key(p) {
            lemma_page_idx_bound((addr + data.len() - 1) as u64);
        }
    }
    assert forall|a: u64|
        #[trigger] byte_at(post, a) == (if addr <= a && a < addr + data.len() {
            data[a - addr]
        } else {
            byte_at(pre, a)
        }) by {
        let p = spec_page_idx(a);
        let o = spec_page_offset(a);
        lemma_page_idx_bound(a);
        lemma_page_offset_bound(a);
        if post.contains_key(p) {
            lemma_addr_of_parts(p, o);
            lemma_addr_from_parts(a, addr_of(p, o));
            assert(byte_at(post, a) == post[p][o as int]);
        } else {
            if addr <= a && a < addr + data.len() {
                lemma_page_idx_monotone(addr, a);
                lemma_page_idx_monotone(a, (addr + data.len() - 1) as u64);
                assert(page_in_range(addr, data.len() as int, p));
            }
        }
    }
}

/// A store's effect is a function of the image before it: any image meeting
/// `store_post` is `store_map` of the old one.
pub proof fn lemma_store_post_is_store_map(pre: PageMap, post: PageMap, addr: u64, data: Seq<u8>)
    requires
        addr + data.len() - 1 <= u64::MAX,
        store_post(pre, post, addr, data),
    ensures
        post == store_map(pre, addr, data),
{
    let sm = store_map(pre, addr, data);
    assert forall|p: u64| #[trigger] post.contains_key(p) implies post[p] == sm[p] by {
        assert forall|o: int| 0 <= o < PAGE_SIZE implies post[p][o] == sm[p][o] by {
            lemma_addr_of_parts(p, o as u64);
            let a = addr_of(p, o as u64);
            assert(byte_at(post, a) == post[p][o]);
        }
        assert(post[p] =~= sm[p]);
    }
    assert(post =~= sm);
}

/// Offsets are always in page range.
pub proof fn lemma_page_offset_bound(addr: u64)
    ensures
        spec_page_offset(addr) < PAGE_SIZE,
{
    assert(addr & 4095 < 4096) by (bit_vector);
}

/// Stepping `k` bytes forward within one page keeps the page index and moves
/// the offset by `k`; the step cannot overflow the address space.
pub proof fn lemma_same_page_step(addr: u64, k: u64)
    requires
        spec_page_offset(addr) + k < PAGE_SIZE,
    ensures
        addr + k <= u64::MAX,
        spec_page_idx((addr + k) as u64) == spec_page_idx(addr),
        spec_page_offset((addr + k) as u64) == spec_page_offset(addr) + k,
{
    assert((addr & 4095) + k < 4096 ==> addr + k <= u64::MAX
        && ((addr + k) as u64) >> 12 == addr >> 12
        && ((addr + k) as u64) & 4095 == (addr & 4095) + k) by (bit_vector);
}

/// An address is determined by its page index and page offset.
pub proof fn lemma_addr_from_parts(a: u64, b: u64)
    requires
        spec_page_idx(a) == spec_page_idx(b),
        spec_page_offset(a) == spec_page_offset(b),
    ensures
        a == b,
{
    assert(a >> 12 == b >> 12 && a & 4095 == b & 4095 ==> a == b) by (bit_vector);
}

/// Round trip, byte width: storing a byte and reading it back yields the
/// stored byte. Holds of every backend whose store meets `store_post` and
/// whose load returns `byte_at`.
pub proof fn lemma_store_load_round_trip_u8(pre: PageMap, post: PageMap, addr: u64, v: u8)
    requires
        store_post(pre, post, addr, seq![v]),
    ensures
        byte_at(post, addr) == v,
{
}

/// Round trip, 16-bit width.
pub proof fn lemma_store_load_round_trip_u16(pre: PageMap, post: PageMap, addr: u64, v: u16)
    requires
        addr + 1 <= u64::MAX,
        store_post(pre, post, addr, u16_le_seq(v)),
    ensures
        u16_at(post, addr) == v,
{
    assert(byte_at(post, addr) == u16_le_byte(v, 0));
    assert(byte_at(post, (addr + 1) as u64) == u16_le_byte(v, 1));
    assert(u16_from_le(u16_le_byte(v, 0), u16_le_byte(v, 1)) == v) by (bit_vector);
}

/// Round trip, 32-bit width.
pub proof fn lemma_store_load_round_trip_u32(pre: PageMap, post: PageMap, addr: u64, v: u32)
    requires
        addr + 3 <= u64::MAX,
        store_post(pre, post, addr, u32_le_seq(v)),
    ensures
        u32_at(post, addr) == v,
{
    assert(byte_at(post, addr) == u32_le_byte(v, 0));
    assert(byte_at(post, (addr + 1) as u64) == u32_le_byte(v, 1));
    assert(byte_at(post, (addr + 2) as u64) == u32_le_byte(v, 2));
    assert(byte_at(post, (addr + 3) as u64) == u32_le_byte(v, 3));
    assert(u32_from_le(u32_le_byte(v, 0), u32_le_byte(v, 1), u32_le_byte(v, 2),
        u32_le_byte(v, 3)) == v) by (bit_vector);
}

/// Round trip, 64-bit width.
pub proof fn lemma_store_load_round_trip_u64(pre: PageMap, post: PageMap, addr: u64, v: u64)
    requires
        addr + 7 <= u64::MAX,
        store_post(pre, post, addr, u64_le_seq(v)),
    ensures
        u64_at(post, addr) == v,
{
    assert(byte_at(post, addr) == u64_le_byte(v, 0));
    assert(byte_at(post, (addr + 1) as u64) == u64_le_byte(v, 1));
    assert(byte_at(post, (addr + 2) as u64) == u64_le_byte(v, 2));
    assert(byte_at(post, (addr + 3) as u64) == u64_le_byte(v, 3));
    assert(byte_at(post, (addr + 4) as u64) == u64_le_byte(v, 4));
    assert(byte_at(post, (addr + 5) as u64) == u64_le_byte(v, 5));
    assert(byte_at(post, (addr + 6) as u64) == u64_le_byte(v, 6));
    assert(byte_at(post, (addr + 7) as u64) == u64_le_byte(v, 7));
    assert(u64_from_le(u64_le_byte(v, 0), u64_le_byte(v, 1), u64_le_byte(v, 2),
        u64_le_byte(v, 3), u64_le_byte(v, 4), u64_le_byte(v, 5), u64_le_byte(v, 6),
        u64_le_byte(v, 7)) == v) by (bit_vector);
}

/// An address never written reads as zero: on a fresh image every load, of
/// every width, yields zero.
pub proof fn lemma_fresh_memory_reads_zero(addr: u64)
    ensures
        byte_at(Map::empty(), addr) == 0,
        addr + 1 <= u64::MAX ==> u16_at(Map::empty(), addr) == 0,
        addr + 3 <= u64::MAX ==> u32_at(Map::empty(), addr) == 0,
        addr + 7 <= u64::MAX ==> u64_at(Map::empty(), addr) == 0,
{
    assert(u16_from_le(0, 0) == 0) by (bit_vector);
    assert(u32_from_le(0, 0, 0, 0) == 0) by (bit_vector);
    assert(u64_from_le(0, 0, 0, 0, 0, 0, 0, 0) == 0) by (bit_vector);
}

/// Overlapping writes compose: a 32-bit store at `addr` followed by a 16-bit
/// store at `addr + 1` leaves the little-endian composite whose low and high
/// bytes come from `v` and whose two middle bytes come from `w`.
pub proof fn lemma_overlapping_stores_compose(
    m0: PageMap, m1: PageMap, m2: PageMap, addr: u64, v: u32, w: u16,
)
    requires
        addr + 3 <= u64::MAX,
        store_post(m0, m1, addr, u32_le_seq(v)),
        store_post(m1, m2, (addr + 1) as u64, u16_le_seq(w)),
    ensures
        u32_at(m2, addr) == (v & 0xFF00_00FF) | (((w as u32) << 8) & 0x00FF_FF00),
{
    assert(byte_at(m2, addr) == u32_le_byte(v, 0));
    assert(byte_at(m2, (addr + 1) as u64) == u16_le_byte(w, 0));
    assert(byte_at(m2, (addr + 2) as u64) == u16_le_byte(w, 1));
    assert(byte_at(m2, (addr + 3) as u64) == u32_le_byte(v, 3));
    assert(u32_from_le(u32_le_byte(v, 0), u16_le_byte(w, 0), u16_le_byte(w, 1),
        u32_le_byte(v, 3)) == (v & 0xFF00_00FF) | (((w as u32) << 8) & 0x00FF_FF00))
        by (bit_vector);
}

/// Two images whose visible bytes agree everywhere.
pub open spec fn bytes_equivalent(m1: PageMap, m2: PageMap) -> bool {
    forall|a: u64| #[trigger] byte_at(m1, a) == #[trigger] byte_at(m2, a)
}

/// Cache correctness, read half: backends whose images agree byte for byte
/// return the same value for every load, of every width.
pub proof fn lemma_equivalent_loads_agree(m1: PageMap, m2: PageMap, addr: u64)
    requires
        bytes_equivalent(m1, m2),
    ensures
        byte_at(m1, addr) == byte_at(m2, addr),
        u16_at(m1, addr) == u16_at(m2, addr),
        u32_at(m1, addr) == u32_at(m2, addr),
        u64_at(m1, addr) == u64_at(m2, addr),
{
}

/// Cache correctness, write half: the same store applied to two byte-for-byte
/// equal images leaves two byte-for-byte equal images.
pub proof fn lemma_store_preserves_equivalence(
    m1: PageMap, m2: PageMap, p1: PageMap, p2: PageMap, addr: u64, data: Seq<u8>,
)
    requires
        bytes_equivalent(m1, m2),
        store_post(m1, p1, addr, data),
        store_post(m2, p2, addr, data),
    ensures
        bytes_equivalent(p1, p2),
{
    assert forall|a: u64| #[trigger] byte_at(p1, a) == byte_at(p2, a) by {
        assert(byte_at(m1, a) == byte_at(m2, a));
    }
}

/// A chain of stores: `ms[i]` is the image left by the `i`-th operation of
/// `ops` — an address and the bytes written there — applied to the image
/// before it, `m0` for the first.
pub open spec fn stores_chain(m0: PageMap, ms: Seq<PageMap>, ops: Seq<(u64, Seq<u8>)>) -> bool {
    &&& ms.len() == ops.len()
    &&& forall|i: int|
        0 <= i < ops.len() ==> store_post(
            if i == 0 {
                m0
            } else {
                ms[i - 1]
            },
            #[trigger] ms[i],
            ops[i].0,
            ops[i].1,
        )
}

/// Cache correctness, whole runs: two backends that start byte-for-byte equal
/// and apply one and the same operation sequence end byte-for-byte equal — so
/// by `lemma_equivalent_loads_agree` every load, of every width, returns the
/// same value through both.
pub proof fn lemma_equivalent_runs_agree(
    m0: PageMap, n0: PageMap, ms: Seq<PageMap>, ns: Seq<PageMap>, ops: Seq<(u64, Seq<u8>)>,
)
    requires
        bytes_equivalent(m0, n0),
        stores_chain(m0, ms, ops),
        stores_chain(n0, ns, ops),
        ops.len() > 0,
    ensures
        bytes_equivalent(ms.last(), ns.last()),
    decreases ops.len(),
{
    let k = ops.len() - 1;
    if k == 0 {
        lemma_store_preserves_equivalence(m0, n0, ms[0], ns[0], ops[0].0, ops[0].1);
    } else {
        assert forall|i: int|
            0 <= i < ops.drop_last().len() implies store_post(
            if i == 0 {
                m0
            } else {
                ms.drop_last()[i - 1]
            },
            #[trigger] ms.drop_last()[i],
            ops.drop_last()[i].0,
            ops.drop_last()[i].1,
        ) by {
            assert(ms.drop_last()[i] == ms[i]);
            if i > 0 {
                assert(ms.drop_last()[i - 1] == ms[i - 1]);
            }
            assert(ops.drop_last()[i] == ops[i]);
        }
        assert forall|i: int|
            0 <= i < ops.drop_last().len() implies store_post(
            if i == 0 {
                n0
            } else {
                ns.drop_last()[i - 1]
            },
            #[trigger] ns.drop_last()[i],
            ops.drop_last()[i].0,
            ops.drop_last()[i].1,
        ) by {
            assert(ns.drop_last()[i] == ns[i]);
            if i > 0 {
                assert(ns.drop_last()[i - 1] == ns[i - 1]);
            }
            assert(ops.drop_last()[i] == ops[i]);
        }
        lemma_equivalent_runs_agree(m0, n0, ms.drop_last(), ns.drop_last(), ops.drop_last());
        assert(ms.drop_last().last() == ms[k - 1]);
        assert(ns.drop_last().last() == ns[k - 1]);
        lemma_store_preserves_equivalence(ms[k - 1], ns[k - 1], ms[k], ns[k], ops[k].0, ops[k].1);
    }
}

/// An address that no operation of a run writes keeps its byte through the
/// whole run; started on a fresh image, it reads zero at the end.
pub proof fn lemma_unwritten_address_unchanged(
    m0: PageMap, ms: Seq<PageMap>, ops: Seq<(u64, Seq<u8>)>, addr: u64,
)
    requires
        stores_chain(m0, ms, ops),
        ops.len() > 0,
        forall|i: int|
            0 <= i < ops.len() ==> !((#[trigger] ops[i]).0 <= addr && addr < ops[i].0
                + ops[i].1.len()),
    ensures
        byte_at(ms.last(), addr) == byte_at(m0, addr),
    decreases ops.len(),
{
    let k = ops.len() - 1;
    if k > 0 {
        assert forall|i: int|
            0 <= i < ops.drop_last().len() implies store_post(
            if i == 0 {
                m0
            } else {
                ms.drop_last()[i - 1]
            },
            #[trigger] ms.drop_last()[i],
            ops.drop_last()[i].0,
            ops.drop_last()[i].1,
        ) by {
            assert(ms.drop_last()[i] == ms[i]);
            if i > 0 {
                assert(ms.drop_last()[i - 1] == ms[i - 1]);
            }
            assert(ops.drop_last()[i] == ops[i]);
        }
        lemma_unwritten_address_unchanged(m0, ms.drop_last(), ops.drop_last(), addr);
        assert(ms.drop_last().last() == ms[k - 1]);
    }
}

/// Reads a 16-bit little-endian value from two bytes.
pub fn u16_from_le_parts(b0: u8, b1: u8) -> (r: u16)
    ensures
        r == u16_from_le(b0, b1),
{
    (b0 as u16) | ((b1 as u16) << 8)
}

/// Reads a 32-bit little-endian value from four bytes.
pub fn u32_from_le_parts(b0: u8, b1: u8, b2: u8, b3: u8) -> (r: u32)
    ensures
        r == u32_from_le(b0, b1, b2, b3),
{
    (b0 as u32) | ((b1 as u32) << 8) | ((b2 as u32) << 16) | ((b3 as u32) << 24)
}

/// Reads a 64-bit little-endian value from eight bytes.
pub fn u64_from_le_parts(
    b0: u8, b1: u8, b2: u8, b3: u8, b4: u8, b5: u8, b6: u8, b7: u8,
) -> (r: u64)
    ensures
        r == u64_from_le(b0, b1, b2, b3, b4, b5, b6, b7),
{
    (b0 as u64) | ((b1 as u64) << 8) | ((b2 as u64) << 16) | ((b3 as u64) << 24)
        | ((b4 as u64) << 32) | ((b5 as u64) << 40) | ((b6 as u64) << 48) | ((b7 as u64) << 56)
}

/// The little-endian bytes of a 16-bit value.
pub fn u16_to_le_bytes(v: u16) -> (r: Vec<u8>)
    ensures
        r@ == u16_le_seq(v),
{
    let r: Vec<u8> = vec![(v & 0xff) as u8, ((v >> 8) & 0xff) as u8];
    proof {
        assert(r@ =~= u16_le_seq(v));
    }
    r
}

/// The little-endian bytes of a 32-bit value.
pub fn u32_to_le_bytes(v: u32) -> (r: Vec<u8>)
    ensures
        r@ == u32_le_seq(v),
{
    let r: Vec<u8> = vec![
        (v & 0xff) as u8,
        ((v >> 8) & 0xff) as u8,
        ((v >> 16) & 0xff) as u8,
        ((v >> 24) & 0xff) as u8,
    ];
    proof {
        assert(r@ =~= u32_le_seq(v));
    }
    r
}

/// The little-endian bytes of a 64-bit value.
pub fn u64_to_le_bytes(v: u64) -> (r: Vec<u8>)
    ensures
        r@ == u64_le_seq(v),
{
    let r: Vec<u8> = vec![
        (v & 0xff) as u8,
        ((v >> 8) & 0xff) as u8,
        ((v >> 16) & 0xff) as u8,
        ((v >> 24) & 0xff) as u8,
        ((v >> 32) & 0xff) as u8,
        ((v >> 40) & 0xff) as u8,
        ((v >> 48) & 0xff) as u8,
        ((v >> 56) & 0xff) as u8,
    ];
    proof {
        assert(r@ =~= u64_le_seq(v));
    }
    r
}

} // verus!
