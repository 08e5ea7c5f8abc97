use fast_mem::MemoryEmulator;
use fast_mem::named_hasher::{AHash, FxHash, NamedHasher, NoHashU64, Sip};
use fast_mem::noop::NoopMem;
use fast_mem::paged::PagedMemory;
use fast_mem::paged_cache_line::{cache_index, PagedMemoryCacheLine};
use fast_mem::paged_last_cache::PagedMemoryCacheLast;

fn test_memory_emulator<M: MemoryEmulator>(mut mem: M) {
    let addrs: &[u64] = &[
        0,
        1,
        2,
        3,
        7,
        8,
        15,
        16,
        0x1000,
        0x1003,
        0x1FFF,
        0xFFFF_FFFF_FFFF_FF00,
    ];

    for a in addrs {
        let addr = *a;
        mem.store_u8(addr, 0xA5);
        assert_eq!(mem.load_u8(addr), 0xA5);

        mem.store_u16(addr, 0xBEEF);
        assert_eq!(mem.load_u16(addr), 0xBEEF);

        mem.store_u32(addr, 0xDEAB_BEED);
        assert_eq!(mem.load_u32(addr), 0xDEAB_BEED);

        mem.store_u64(addr, 0x0123_4567_89AB_CDEF);
        assert_eq!(mem.load_u64(addr), 0x0123_4567_89AB_CDEF);
    }

    let base = 0x3000;
    mem.store_u32(base, 0xAABB_CCDD);
    mem.store_u16(base + 1, 0x1122);
    assert_eq!(mem.load_u32(base), 0xAA11_22DD);

    let base = 0x5000;
    mem.store_u8(base, 0x78);
    mem.store_u8(base + 1, 0x56);
    mem.store_u8(base + 2, 0x34);
    mem.store_u8(base + 3, 0x12);
    assert_eq!(mem.load_u32(base), 0x1234_5678);
}

#[test]
fn test_mem_emulator_correctness() {
    test_memory_emulator(PagedMemory::default());
    test_memory_emulator(PagedMemory::with_hasher(&AHash));
    test_memory_emulator(PagedMemory::with_hasher(&FxHash));
    test_memory_emulator(PagedMemory::with_hasher(&NoHashU64));
    test_memory_emulator(PagedMemoryCacheLast::default());
    test_memory_emulator(PagedMemoryCacheLast::with_hasher(&AHash));
    test_memory_emulator(PagedMemoryCacheLast::with_hasher(&FxHash));
    test_memory_emulator(PagedMemoryCacheLast::with_hasher(&NoHashU64));
}

#[test]
fn cache_line_backend_correctness() {
    test_memory_emulator(PagedMemoryCacheLine::with_hasher(&Sip, 1));
    test_memory_emulator(PagedMemoryCacheLine::with_hasher(&AHash, 4));
    test_memory_emulator(PagedMemoryCacheLine::with_hasher(&FxHash, 16));
    test_memory_emulator(PagedMemoryCacheLine::with_hasher(&NoHashU64, 64));
}

#[test]
fn page_reuse_result_in_same_pointer() {
    let mut mem = PagedMemoryCacheLast::default();
    let p1 = mem.resolve_page(5);
    let p2 = mem.resolve_page(5);

    assert_eq!(p1, p2);
}

#[test]
fn page_reuse_same_slot_cache_line() {
    let mut mem = PagedMemoryCacheLine::with_hasher(&Sip, 8);
    let p1 = mem.resolve_page(5);
    let p2 = mem.resolve_page(5);
    assert_eq!(p1, p2);
}

#[test]
fn unwritten_addresses_read_zero() {
    let mut mem = PagedMemory::default();
    assert_eq!(mem.load_u8(0x9000), 0);
    assert_eq!(mem.load_u16(0x9000), 0);
    assert_eq!(mem.load_u32(0x9000), 0);
    assert_eq!(mem.load_u64(0x9000), 0);

    // A write maps its page, but other addresses of the page still read zero.
    mem.store_u8(0x9100, 0x42);
    assert_eq!(mem.load_u64(0x9108), 0);

    let mut cached = PagedMemoryCacheLast::default();
    assert_eq!(cached.load_u64(0xFFFF_FFFF_FFFF_FFF8), 0);
    let mut ways = PagedMemoryCacheLine::with_hasher(&Sip, 4);
    assert_eq!(ways.load_u32(0), 0);
}

#[test]
fn round_trip_across_page_boundary() {
    // Offset 0xFFF with width 4 spans two pages.
    let mut mem = PagedMemory::default();
    mem.store_u32(0x1FFF, 0xCAFE_F00D);
    assert_eq!(mem.load_u32(0x1FFF), 0xCAFE_F00D);
    // The neighbouring bytes of both pages are untouched.
    assert_eq!(mem.load_u8(0x1FFE), 0);
    assert_eq!(mem.load_u8(0x2003), 0);

    let mut cached = PagedMemoryCacheLast::default();
    cached.store_u64(0x2FFC, 0x1122_3344_5566_7788);
    assert_eq!(cached.load_u64(0x2FFC), 0x1122_3344_5566_7788);

    let mut ways = PagedMemoryCacheLine::with_hasher(&Sip, 2);
    ways.store_u16(0x3FFF, 0xABCD);
    assert_eq!(ways.load_u16(0x3FFF), 0xABCD);
}

#[test]
fn overlapping_writes_compose() {
    let mut mem = PagedMemory::default();
    mem.store_u32(0x3000, 0xAABB_CCDD);
    mem.store_u16(0x3001, 0x1122);
    assert_eq!(mem.load_u32(0x3000), 0xAA11_22DD);
    assert_eq!(mem.load_u8(0x3000), 0xDD);
    assert_eq!(mem.load_u8(0x3001), 0x22);
    assert_eq!(mem.load_u8(0x3002), 0x11);
    assert_eq!(mem.load_u8(0x3003), 0xAA);
}

/// The same operation sequence on every backend yields the same observations.
#[test]
fn cross_backend_equivalence() {
    let ops: &[(u64, u64)] = &[
        (0x0, 0x0102_0304_0506_0708),
        (0x1FFD, 0xAAAA_BBBB_CCCC_DDDD),
        (0x1000_0000, 0x42),
        (0xFFFF_FFFF_FFFF_FF00, 0xFFEE_DDCC_BBAA_9988),
        (0x1FFD, 0x1111_2222_3333_4444),
    ];
    let probes: &[u64] = &[0x0, 0x4, 0x1FFD, 0x1FFF, 0x2001, 0x1000_0000, 0xFFFF_FFFF_FFFF_FF00, 0x7777];

    let mut direct = PagedMemory::default();
    let mut last = PagedMemoryCacheLast::with_hasher(&FxHash);
    let mut ways = PagedMemoryCacheLine::with_hasher(&NoHashU64, 2);
    for (addr, value) in ops {
        direct.store_u64(*addr, *value);
        last.store_u64(*addr, *value);
        ways.store_u64(*addr, *value);
    }
    for p in probes {
        let want = direct.load_u64(*p);
        assert_eq!(last.load_u64(*p), want);
        assert_eq!(ways.load_u64(*p), want);
    }
}

#[test]
fn page_idx_and_offset() {
    assert_eq!(PagedMemory::page_idx(0), 0);
    assert_eq!(PagedMemory::page_idx(0xFFF), 0);
    assert_eq!(PagedMemory::page_idx(0x1000), 1);
    assert_eq!(PagedMemory::page_idx(0x1FFF), 1);
    assert_eq!(PagedMemory::page_offset(0x1FFF), 0xFFF);
    assert_eq!(PagedMemory::page_offset(0x2000), 0);
    assert_eq!(PagedMemoryCacheLast::page_idx(0x5432), 5);
    assert_eq!(PagedMemoryCacheLast::page_offset(0x5432), 0x432);
    assert_eq!(PagedMemoryCacheLine::page_idx(u64::MAX), u64::MAX >> 12);
    assert_eq!(PagedMemoryCacheLine::page_offset(u64::MAX), 0xFFF);
}

#[test]
fn cache_index_is_modulo() {
    assert_eq!(cache_index(0, 16), 0);
    assert_eq!(cache_index(5, 16), 5);
    assert_eq!(cache_index(21, 16), 5);
    assert_eq!(cache_index(1023, 1), 0);
    assert_eq!(cache_index(u64::MAX, 8), 7);
}

#[test]
fn colliding_pages_thrash_but_stay_correct() {
    // With one way, pages 0 and 1 evict each other on every access.
    let mut mem = PagedMemoryCacheLine::with_hasher(&Sip, 1);
    mem.store_u8(0x0000, 0x11);
    mem.store_u8(0x1000, 0x22);
    mem.store_u8(0x0001, 0x33);
    assert_eq!(mem.load_u8(0x0000), 0x11);
    assert_eq!(mem.load_u8(0x1000), 0x22);
    assert_eq!(mem.load_u8(0x0001), 0x33);
}

#[test]
fn empty_write_allocates_nothing() {
    // An empty write is a no-op, even at the very top of the address space.
    let mut mem = PagedMemory::default();
    let empty: Vec<u8> = Vec::new();
    mem.write_n_bytes(u64::MAX, &empty);
    assert_eq!(mem.load_u8(u64::MAX), 0);
    mem.store_u8(u64::MAX, 0x77);
    mem.write_n_bytes(u64::MAX, &empty);
    assert_eq!(mem.load_u8(u64::MAX), 0x77);
}

#[test]
fn find_page_read_path() {
    let mut mem = PagedMemoryCacheLast::default();
    // Unmapped page: nothing found, nothing allocated.
    assert_eq!(mem.find_page(7), None);
    mem.store_u8(0x7000, 1);
    let s1 = mem.find_page(7);
    let s2 = mem.find_page(7);
    assert!(s1.is_some());
    assert_eq!(s1, s2);

    let mut ways = PagedMemoryCacheLine::with_hasher(&Sip, 4);
    assert_eq!(ways.find_page(9), None);
    ways.store_u8(0x9000, 1);
    let s1 = ways.find_page(9);
    let s2 = ways.find_page(9);
    assert!(s1.is_some());
    assert_eq!(s1, s2);
}

#[test]
fn noop_backend() {
    let mut mem = NoopMem::default();
    mem.store_u64(0x1000, 0x1234);
    assert_eq!(mem.load_u8(0x1000), 1);
    assert_eq!(mem.load_u16(0x1000), 1);
    assert_eq!(mem.load_u32(0x1000), 1);
    assert_eq!(mem.load_u64(0x1000), 1);
}

#[test]
fn strategy_names() {
    assert_eq!(Sip.strategy_name(), "SipHash");
    assert_eq!(AHash.strategy_name(), "AHash");
    assert_eq!(FxHash.strategy_name(), "FxHash");
    assert_eq!(NoHashU64.strategy_name(), "NoHashU64");
}
