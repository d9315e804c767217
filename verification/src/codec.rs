//! Record framing: the 16-byte little-endian header and the payload that
//! follows it.

use vstd::bytes::*;
use vstd::prelude::*;
use vstd::slice::*;

verus! {

/// The fixed size of an encoded header: a `u32` usage code, a `u64`
/// timestamp and a `u32` payload length, in that order, each little-endian.
pub const HEADER_SIZE: usize = 16;

/// A decoded record header. `usage` and `timestamp` are opaque pass-through
/// values; `length` is the declared byte count of the payload that follows.
#[derive(Clone, Copy, Debug, PartialEq, Eq, Structural)]
pub struct Header {
    pub usage: u32,
    pub timestamp: u64,
    pub length: u32,
}

/// One framed record: its header and exactly `header.length` payload bytes.
#[derive(Debug)]
pub struct Report {
    pub header: Header,
    pub data: Vec<u8>,
}

/// Why a decode step failed. Every failure is fatal to the read loop:
/// nothing is retried and no resynchronization is attempted.
#[derive(Clone, Copy, Debug, PartialEq, Eq, Structural)]
pub enum DecodeError {
    /// The stream ended before the header or the declared payload was
    /// complete. A clean end-of-stream is indistinguishable from a fault.
    ShortRead,
    /// The payload is too short for the fixed field offsets of the selected
    /// sensor type.
    PayloadTooShort,
}

/// The header denoted by the first 16 bytes of `s`.
pub open spec fn header_of(s: Seq<u8>) -> Header
    recommends
        s.len() >= HEADER_SIZE,
{
    Header {
        usage: spec_u32_from_le_bytes(s.subrange(0, 4)),
        timestamp: spec_u64_from_le_bytes(s.subrange(4, 12)),
        length: spec_u32_from_le_bytes(s.subrange(12, 16)),
    }
}

/// The 16-byte little-endian encoding of a header, as it stands on the wire.
pub open spec fn spec_encode_header(h: Header) -> Seq<u8> {
    spec_u32_to_le_bytes(h.usage) + spec_u64_to_le_bytes(h.timestamp) + spec_u32_to_le_bytes(
        h.length,
    )
}

/// Encodes a header to its 16-byte little-endian wire form.
pub fn encode_header(h: &Header) -> (r: Vec<u8>)
    ensures
        r@ == spec_encode_header(*h),
        r@.len() == HEADER_SIZE,
{
    proof {
        lemma_auto_spec_u32_to_from_le_bytes();
        lemma_auto_spec_u64_to_from_le_bytes();
    }
    let mut r = u32_to_le_bytes(h.usage);
    let mut timestamp_bytes = u64_to_le_bytes(h.timestamp);
    let mut length_bytes = u32_to_le_bytes(h.length);
    r.append(&mut timestamp_bytes);
    r.append(&mut length_bytes);
    r
}

/// Law: an encoded header decodes back to the very same usage, timestamp
/// and length, whatever bytes follow it.
pub proof fn lemma_header_round_trip(h: Header, rest: Seq<u8>)
    ensures
        header_of(spec_encode_header(h) + rest) == h,
        (spec_encode_header(h) + rest).len() == HEADER_SIZE + rest.len(),
{
    lemma_auto_spec_u32_to_from_le_bytes();
    lemma_auto_spec_u64_to_from_le_bytes();
    let s = spec_encode_header(h) + rest;
    assert(s.subrange(0, 4) =~= spec_u32_to_le_bytes(h.usage));
    assert(s.subrange(4, 12) =~= spec_u64_to_le_bytes(h.timestamp));
    assert(s.subrange(12, 16) =~= spec_u32_to_le_bytes(h.length));
}

/// Law: a header followed by a payload of exactly the declared length
/// decodes back to the very same usage, timestamp and length, and the
/// payload is recovered unchanged.
pub proof fn lemma_record_round_trip(h: Header, payload: Seq<u8>)
    requires
        payload.len() == h.length,
    ensures
        header_of(spec_encode_header(h) + payload) == h,
        (spec_encode_header(h) + payload).subrange(
            HEADER_SIZE as int,
            HEADER_SIZE + h.length,
        ) == payload,
        (spec_encode_header(h) + payload).len() == HEADER_SIZE + h.length,
{
    lemma_header_round_trip(h, payload);
    assert((spec_encode_header(h) + payload).subrange(
        HEADER_SIZE as int,
        HEADER_SIZE + h.length,
    ) =~= payload);
}

/// Reads a header from the front of the available bytes. Fails exactly when
/// fewer than 16 bytes are available; the `usage` and `timestamp` values are
/// not validated.
pub fn read_header(input: &[u8]) -> (r: Result<Header, DecodeError>)
    ensures
        r is Ok <==> input@.len() >= HEADER_SIZE,
        r matches Ok(h) ==> h == header_of(input@),
        r matches Err(e) ==> e == DecodeError::ShortRead,
{
    if input.len() < HEADER_SIZE {
        Err(DecodeError::ShortRead)
    } else {
        let usage = u32_from_le_bytes(slice_subrange(input, 0, 4));
        let timestamp = u64_from_le_bytes(slice_subrange(input, 4, 12));
        let length = u32_from_le_bytes(slice_subrange(input, 12, 16));
        Ok(Header { usage, timestamp, length })
    }
}

/// Reads one whole record from the front of the available bytes: a header,
/// then exactly `header.length` payload bytes. Fails exactly when the bytes
/// run out first, and then yields no partial report.
pub fn read_report(input: &[u8]) -> (r: Result<Report, DecodeError>)
    ensures
        r is Ok <==> input@.len() >= HEADER_SIZE + header_of(input@).length,
        r matches Ok(rep) ==> {
            &&& rep.header == header_of(input@)
            &&& rep.data@ == input@.subrange(
                HEADER_SIZE as int,
                HEADER_SIZE + header_of(input@).length,
            )
        },
        r matches Err(e) ==> e == DecodeError::ShortRead,
{
    let header = match read_header(input) {
        Ok(h) => h,
        Err(e) => {
            return Err(e);
        },
    };
    let len = header.length as usize;
    if input.len() - HEADER_SIZE < len {
        return Err(DecodeError::ShortRead);
    }
    let data = slice_to_vec(slice_subrange(input, HEADER_SIZE, HEADER_SIZE + len));
    Ok(Report { header, data })
}

} // verus!
