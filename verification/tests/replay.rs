use fast_mem::MemoryEmulator;
use fast_mem::paged::PagedMemory;
use fast_mem::paged_last_cache::PagedMemoryCacheLast;
use fast_mem::trace::{decode_record, replay_mem_operations, TraceError, TraceRecord};

fn store_rec(width: u8, addr: u64, value: u64) -> Vec<u8> {
    let mut v = vec![1u8, width];
    v.extend_from_slice(&addr.to_le_bytes());
    v.extend_from_slice(&value.to_le_bytes()[..width as usize]);
    v
}

fn load_rec(width: u8, addr: u64) -> Vec<u8> {
    let mut v = vec![2u8, width];
    v.extend_from_slice(&addr.to_le_bytes());
    v
}

#[test]
fn replay_end_to_end() {
    let mut trace: Vec<u8> = Vec::new();
    trace.extend(store_rec(1, 0x5000, 0x78));
    trace.extend(store_rec(1, 0x5001, 0x56));
    trace.extend(store_rec(1, 0x5002, 0x34));
    trace.extend(store_rec(1, 0x5003, 0x12));

    let mut mem = PagedMemory::default();
    let r = replay_mem_operations(&trace, &mut mem);
    assert_eq!(r, Ok(1));
    assert_eq!(mem.load_u32(0x5000), 0x1234_5678);

    let mut cached = PagedMemoryCacheLast::default();
    let r = replay_mem_operations(&trace, &mut cached);
    assert_eq!(r, Ok(1));
    assert_eq!(cached.load_u32(0x5000), 0x1234_5678);
}

#[test]
fn replay_all_widths() {
    let mut trace: Vec<u8> = Vec::new();
    trace.extend(store_rec(8, 0x100, 0x1122_3344_5566_7788));
    trace.extend(store_rec(4, 0x200, 0xAABB_CCDD));
    trace.extend(store_rec(2, 0x300, 0xBEEF));
    trace.extend(store_rec(1, 0x400, 0xA5));
    trace.extend(load_rec(8, 0x100));
    trace.extend(load_rec(4, 0x200));
    trace.extend(load_rec(2, 0x300));
    trace.extend(load_rec(1, 0x400));

    let mut mem = PagedMemory::default();
    assert_eq!(replay_mem_operations(&trace, &mut mem), Ok(1));
    assert_eq!(mem.load_u64(0x100), 0x1122_3344_5566_7788);
    assert_eq!(mem.load_u32(0x200), 0xAABB_CCDD);
    assert_eq!(mem.load_u16(0x300), 0xBEEF);
    assert_eq!(mem.load_u8(0x400), 0xA5);
}

#[test]
fn empty_trace_terminates_cleanly() {
    let trace: Vec<u8> = Vec::new();
    let mut mem = PagedMemory::default();
    assert_eq!(replay_mem_operations(&trace, &mut mem), Ok(0));
}

#[test]
fn trace_ending_on_record_boundary_terminates_cleanly() {
    let mut trace: Vec<u8> = Vec::new();
    trace.extend(store_rec(4, 0x1000, 0xDEAD_BEEF));
    trace.extend(load_rec(4, 0x1000));
    let mut mem = PagedMemory::default();
    assert_eq!(replay_mem_operations(&trace, &mut mem), Ok(1));
}

#[test]
fn truncated_header_is_fatal() {
    // Three bytes into a header.
    let trace: Vec<u8> = vec![1, 4, 0];
    let mut mem = PagedMemory::default();
    assert_eq!(
        replay_mem_operations(&trace, &mut mem),
        Err(TraceError::TruncatedRecord)
    );
}

#[test]
fn truncated_payload_is_fatal() {
    let mut trace = store_rec(4, 0x1000, 0xDEAD_BEEF);
    trace.truncate(12);  // header plus two of four payload bytes
    let mut mem = PagedMemory::default();
    assert_eq!(
        replay_mem_operations(&trace, &mut mem),
        Err(TraceError::TruncatedRecord)
    );
}

#[test]
fn unknown_opcode_is_fatal() {
    let mut trace = load_rec(4, 0x1000);
    trace[0] = 7;
    let mut mem = PagedMemory::default();
    assert_eq!(
        replay_mem_operations(&trace, &mut mem),
        Err(TraceError::UnknownOpcode)
    );
}

#[test]
fn invalid_width_is_fatal() {
    let trace = load_rec(3, 0x1000);
    let mut mem = PagedMemory::default();
    assert_eq!(
        replay_mem_operations(&trace, &mut mem),
        Err(TraceError::InvalidWidth)
    );
}

#[test]
fn out_of_range_access_is_fatal() {
    // The last byte of this store would fall beyond the address space.
    let trace = store_rec(8, 0xFFFF_FFFF_FFFF_FFF9, 0);
    let mut mem = PagedMemory::default();
    assert_eq!(
        replay_mem_operations(&trace, &mut mem),
        Err(TraceError::AddressOutOfRange)
    );
    // The same address is fine for a narrower access.
    let trace = store_rec(4, 0xFFFF_FFFF_FFFF_FFF9, 0x0102_0304);
    let mut mem = PagedMemory::default();
    assert_eq!(replay_mem_operations(&trace, &mut mem), Ok(1));
    assert_eq!(mem.load_u32(0xFFFF_FFFF_FFFF_FFF9), 0x0102_0304);
}

#[test]
fn transition_count_tracks_page_changes() {
    let mut trace: Vec<u8> = Vec::new();
    trace.extend(store_rec(1, 0x5000, 1));  // page 5: new
    trace.extend(store_rec(1, 0x5FFF, 2));  // page 5: same
    trace.extend(load_rec(1, 0x6000));      // page 6: new
    trace.extend(store_rec(1, 0x5800, 3));  // page 5 again: new
    let mut mem = PagedMemory::default();
    assert_eq!(replay_mem_operations(&trace, &mut mem), Ok(3));
}

#[test]
fn decode_single_records() {
    let trace = store_rec(2, 0xABCD, 0x1122);
    assert_eq!(
        decode_record(&trace, 0),
        Ok(Some((
            TraceRecord::Store { width: 2, addr: 0xABCD, value: 0x1122 },
            12
        )))
    );
    assert_eq!(decode_record(&trace, 12), Ok(None));

    let trace = load_rec(8, 0xFFFF_0000_1234_5678);
    assert_eq!(
        decode_record(&trace, 0),
        Ok(Some((
            TraceRecord::Load { width: 8, addr: 0xFFFF_0000_1234_5678 },
            10
        )))
    );
}
