//! The trace format and its replayer.
//!
//! A trace is a byte stream of records. Each record opens with a ten-byte
//! header — opcode, width, then a little-endian 64-bit address — and a store
//! record carries `width` more bytes of little-endian payload. A stream that
//! ends exactly on a record boundary terminates replay normally; any other
//! truncation, an unknown opcode, an invalid width, or an access that would
//! run past the top of the address space is fatal and aborts replay.

use vstd::prelude::*;
use crate::MemoryEmulator;
use crate::model;
use crate::model::PageMap;
use crate::paged::PagedMemory;

verus! {

/// Opcode of a store record.
pub const OPCODE_STORE: u8 = 1;

/// Opcode of a load record.
pub const OPCODE_LOAD: u8 = 2;

/// Why a replay was aborted.
#[derive(Clone, Copy, Debug, PartialEq, Eq, Structural)]
pub enum TraceError {
    /// The stream ended inside a header or inside a store payload.
    TruncatedRecord,
    /// A record's opcode is neither load nor store.
    UnknownOpcode,
    /// A record's width is not 1, 2, 4 or 8.
    InvalidWidth,
    /// The access would run past the top of the 64-bit address space.
    AddressOutOfRange,
}

/// One decoded operation.
#[derive(Clone, Copy, Debug, PartialEq, Eq, Structural)]
pub enum TraceRecord {
    /// A load of `width` bytes at `addr`.
    Load { width: u8, addr: u64 },
    /// A store of the `width`-byte little-endian `value` at `addr`.
    Store { width: u8, addr: u64, value: u64 },
}

/// The widths a record may carry.
pub open spec fn valid_width(w: u8) -> bool {
    w == 1 || w == 2 || w == 4 || w == 8
}

/// The address field of the header starting at `pos`.
pub open spec fn spec_addr(s: Seq<u8>, pos: int) -> u64
    recommends
        0 <= pos,
        pos + 10 <= s.len(),
{
    model::u64_from_le(
        s[pos + 2], s[pos + 3], s[pos + 4], s[pos + 5],
        s[pos + 6], s[pos + 7], s[pos + 8], s[pos + 9],
    )
}

/// The little-endian payload of width `w` following the header at `pos`.
pub open spec fn spec_payload(s: Seq<u8>, pos: int, w: u8) -> u64
    recommends
        0 <= pos,
        valid_width(w),
        pos + 10 + w <= s.len(),
{
    if w == 1 {
        s[pos + 10] as u64
    } else if w == 2 {
        model::u16_from_le(s[pos + 10], s[pos + 11]) as u64
    } else if w == 4 {
        model::u32_from_le(s[pos + 10], s[pos + 11], s[pos + 12], s[pos + 13]) as u64
    } else {
        model::u64_from_le(
            s[pos + 10], s[pos + 11], s[pos + 12], s[pos + 13],
            s[pos + 14], s[pos + 15], s[pos + 16], s[pos + 17],
        )
    }
}

/// What decoding one record at `pos` yields: the end of the stream, a record
/// and the position after it, or the error that makes the stream malformed.
pub open spec fn spec_decode(s: Seq<u8>, pos: int) -> Result<
    Option<(TraceRecord, int)>,
    TraceError,
>
    recommends
        0 <= pos <= s.len(),
{
    if pos == s.len() {
        Ok(None)
    } else if s.len() - pos < 10 {
        Err(TraceError::TruncatedRecord)
    } else {
        let op = s[pos];
        let w = s[pos + 1];
        if op != OPCODE_STORE && op != OPCODE_LOAD {
            Err(TraceError::UnknownOpcode)
        } else if !valid_width(w) {
            Err(TraceError::InvalidWidth)
        } else if op == OPCODE_LOAD {
            Ok(Some((TraceRecord::Load { width: w, addr: spec_addr(s, pos) }, pos + 10)))
        } else if s.len() - (pos + 10) < w {
            Err(TraceError::TruncatedRecord)
        } else {
            Ok(
                Some(
                    (
                        TraceRecord::Store {
                            width: w,
                            addr: spec_addr(s, pos),
                            value: spec_payload(s, pos, w),
                        },
                        pos + 10 + w,
                    ),
                ),
            )
        }
    }
}

/// The width and address a record accesses.
pub open spec fn record_width(rec: TraceRecord) -> u8 {
    match rec {
        TraceRecord::Load { width, .. } => width,
        TraceRecord::Store { width, .. } => width,
    }
}

/// The address a record accesses.
pub open spec fn record_addr(rec: TraceRecord) -> u64 {
    match rec {
        TraceRecord::Load { addr, .. } => addr,
        TraceRecord::Store { addr, .. } => addr,
    }
}

/// What a whole replay from `pos` yields, threading the page-transition
/// count: the final count on clean termination, or the first fatal error.
/// `last` is the page index of the previous access, if any.
pub open spec fn spec_replay(s: Seq<u8>, pos: int, last: Option<u64>, count: nat) -> Result<
    nat,
    TraceError,
>
    recommends
        0 <= pos <= s.len(),
    decreases s.len() - pos,
{
    match spec_decode(s, pos) {
        Err(e) => Err(e),
        Ok(None) => Ok(count),
        Ok(Some((rec, next))) => {
            let w = record_width(rec);
            let addr = record_addr(rec);
            let pid = model::spec_page_idx(addr);
            let count2: nat = if last == Some(pid) {
                count
            } else {
                count + 1
            };
            if addr + w - 1 > u64::MAX {
                Err(TraceError::AddressOutOfRange)
            } else {
                spec_replay(s, next, Some(pid), count2)
            }
        },
    }
}

/// The little-endian bytes a store record of width `w` and value `value`
/// writes.
pub open spec fn store_data(w: u8, value: u64) -> Seq<u8>
    recommends
        valid_width(w),
{
    if w == 1 {
        seq![value as u8]
    } else if w == 2 {
        model::u16_le_seq(value as u16)
    } else if w == 4 {
        model::u32_le_seq(value as u32)
    } else {
        model::u64_le_seq(value)
    }
}

/// The memory image a replay from `pos` leaves, starting from `m`: each store
/// record folds `store_map` over the image in stream order, loads change
/// nothing, and nothing follows a fatal error — the image reflects exactly
/// the records dispatched before the failure.
pub open spec fn spec_replay_mem(s: Seq<u8>, pos: int, m: PageMap) -> PageMap
    recommends
        0 <= pos <= s.len(),
    decreases s.len() - pos,
{
    match spec_decode(s, pos) {
        Err(_) => m,
        Ok(None) => m,
        Ok(Some((rec, next))) => {
            if record_addr(rec) + record_width(rec) - 1 > u64::MAX {
                m
            } else {
                match rec {
                    TraceRecord::Load { .. } => spec_replay_mem(s, next, m),
                    TraceRecord::Store { width, addr, value } => spec_replay_mem(
                        s,
                        next,
                        model::store_map(m, addr, store_data(width, value)),
                    ),
                }
            }
        },
    }
}

/// Decode the record starting at `pos`: `Ok(None)` exactly at the end of the
/// stream, otherwise the record and the position after it, or the error that
/// `spec_decode` assigns to a malformed stream.
pub fn decode_record(data: &Vec<u8>, pos: usize) -> (r: Result<
    Option<(TraceRecord, usize)>,
    TraceError,
>)
    requires
        pos <= data@.len(),
    ensures
        spec_decode(data@, pos as int) == (match r {
            Ok(None) => Ok::<Option<(TraceRecord, int)>, TraceError>(None),
            Ok(Some((rec, next))) => Ok(Some((rec, next as int))),
            Err(e) => Err(e),
        }),
        r matches Ok(Some((rec, next))) ==> pos + 10 <= next <= data@.len() && valid_width(
            record_width(rec),
        ),
{
    let len = data.len();
    if pos == len {
        return Ok(None);
    }
    if len - pos < 10 {
        return Err(TraceError::TruncatedRecord);
    }
    let op = data[pos];
    let w = data[pos + 1];
    if op != OPCODE_STORE && op != OPCODE_LOAD {
        return Err(TraceError::UnknownOpcode);
    }
    if !(w == 1 || w == 2 || w == 4 || w == 8) {
        return Err(TraceError::InvalidWidth);
    }
    let addr = model::u64_from_le_parts(
        data[pos + 2], data[pos + 3], data[pos + 4], data[pos + 5],
        data[pos + 6], data[pos + 7], data[pos + 8], data[pos + 9],
    );
    if op == OPCODE_LOAD {
        return Ok(Some((TraceRecord::Load { width: w, addr }, pos + 10)));
    }
    if len - (pos + 10) < w as usize {
        return Err(TraceError::TruncatedRecord);
    }
    let value: u64 = if w == 1 {
        data[pos + 10] as u64
    } else if w == 2 {
        model::u16_from_le_parts(data[pos + 10], data[pos + 11]) as u64
    } else if w == 4 {
        model::u32_from_le_parts(
            data[pos + 10], data[pos + 11], data[pos + 12], data[pos + 13],
        ) as u64
    } else {
        model::u64_from_le_parts(
            data[pos + 10], data[pos + 11], data[pos + 12], data[pos + 13],
            data[pos + 14], data[pos + 15], data[pos + 16], data[pos + 17],
        )
    };
    Ok(Some((TraceRecord::Store { width: w, addr, value }, pos + 10 + w as usize)))
}

/// A stream ending exactly on a record boundary terminates replay cleanly
/// with the count reached so far; a stream that goes on but cannot hold a
/// full header is a fatal truncation.
pub proof fn lemma_replay_termination(s: Seq<u8>, pos: int, last: Option<u64>, count: nat)
    requires
        0 <= pos <= s.len(),
    ensures
        pos == s.len() ==> spec_replay(s, pos, last, count) == Ok::<nat, TraceError>(count),
        pos < s.len() && s.len() - pos < 10 ==> spec_replay(s, pos, last, count) == Err::<
            nat,
            TraceError,
        >(TraceError::TruncatedRecord),
{
}

/// Replay a recorded trace against a memory backend: decode one record at a
/// time and issue the corresponding load or store, counting page-index
/// transitions between consecutive accesses as a locality metric. Returns
/// that count on clean termination and the first fatal error otherwise,
/// exactly as `spec_replay` assigns them; on a backend that models memory,
/// the image left behind is exactly `spec_replay_mem` — the decoded stores
/// folded in stream order up to the end or the first failure, nothing more.
pub fn replay_mem_operations<M: MemoryEmulator>(data: &Vec<u8>, mem: &mut M) -> (r: Result<
    u64,
    TraceError,
>)
    requires
        old(mem).wf(),
    ensures
        final(mem).wf(),
        match r {
            Ok(c) => spec_replay(data@, 0, None::<u64>, 0) == Ok::<nat, TraceError>(c as nat),
            Err(e) => spec_replay(data@, 0, None::<u64>, 0) == Err::<nat, TraceError>(e),
        },
        M::models_memory() ==> final(mem).mem_map() == spec_replay_mem(
            data@,
            0,
            old(mem).mem_map(),
        ),
{
    let mut pos: usize = 0;
    let mut count: u64 = 0;
    let mut last_id: Option<u64> = None;
    loop
        invariant
            mem.wf(),
            pos <= data@.len(),
            10 * count <= pos,
            spec_replay(data@, 0, None::<u64>, 0) == spec_replay(
                data@,
                pos as int,
                last_id,
                count as nat,
            ),
            M::models_memory() ==> spec_replay_mem(data@, 0, old(mem).mem_map())
                == spec_replay_mem(data@, pos as int, mem.mem_map()),
        decreases data@.len() - pos,
    {
        match decode_record(data, pos) {
            Err(e) => {
                proof {
                    if M::models_memory() {
                        assert(spec_replay_mem(data@, pos as int, mem.mem_map())
                            == mem.mem_map());
                    }
                }
                return Err(e);
            },
            Ok(None) => {
                proof {
                    if M::models_memory() {
                        assert(spec_replay_mem(data@, pos as int, mem.mem_map())
                            == mem.mem_map());
                    }
                }
                return Ok(count);
            },
            Ok(Some((rec, next))) => {
                let (w, addr) = match rec {
                    TraceRecord::Load { width, addr } => (width, addr),
                    TraceRecord::Store { width, addr, .. } => (width, addr),
                };
                if addr > u64::MAX - ((w - 1) as u64) {
                    proof {
                        if M::models_memory() {
                            assert(spec_replay_mem(data@, pos as int, mem.mem_map())
                                == mem.mem_map());
                        }
                    }
                    return Err(TraceError::AddressOutOfRange);
                }
                let pid = PagedMemory::page_idx(addr);
                let is_new = match last_id {
                    Some(l) => l != pid,
                    None => true,
                };
                if is_new {
                    count = count + 1;
                    last_id = Some(pid);
                }
                let ghost m_pre = mem.mem_map();
                match rec {
                    TraceRecord::Load { width, addr } => {
                        if width == 1 {
                            let _ = mem.load_u8(addr);
                        } else if width == 2 {
                            let _ = mem.load_u16(addr);
                        } else if width == 4 {
                            let _ = mem.load_u32(addr);
                        } else {
                            let _ = mem.load_u64(addr);
                        }
                        proof {
                            if M::models_memory() {
                                assert(mem.mem_map() == m_pre);
                                assert(spec_replay_mem(data@, pos as int, m_pre)
                                    == spec_replay_mem(data@, next as int, m_pre));
                            }
                        }
                    },
                    TraceRecord::Store { width, addr, value } => {
                        if width == 1 {
                            mem.store_u8(addr, value as u8);
                            proof {
                                assert(store_data(width, value) == seq![value as u8]);
                            }
                        } else if width == 2 {
                            mem.store_u16(addr, value as u16);
                            proof {
                                assert(store_data(width, value) == model::u16_le_seq(
                                    value as u16,
                                ));
                            }
                        } else if width == 4 {
                            mem.store_u32(addr, value as u32);
                            proof {
                                assert(store_data(width, value) == model::u32_le_seq(
                                    value as u32,
                                ));
                            }
                        } else {
                            mem.store_u64(addr, value);
                            proof {
                                assert(store_data(width, value) == model::u64_le_seq(value));
                            }
                        }
                        proof {
                            if M::models_memory() {
                                assert(model::store_post(
                                    m_pre,
                                    mem.mem_map(),
                                    addr,
                                    store_data(width, value),
                                ));
                                model::lemma_store_post_is_store_map(
                                    m_pre,
                                    mem.mem_map(),
                                    addr,
                                    store_data(width, value),
                                );
                                assert(spec_replay_mem(data@, pos as int, m_pre)
                                    == spec_replay_mem(
                                    data@,
                                    next as int,
                                    model::store_map(m_pre, addr, store_data(width, value)),
                                ));
                            }
                        }
                    },
                }
                pos = next;
            },
        }
    }
}

} // verus!
