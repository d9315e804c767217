//! The decode loop over the bytes a stream has yielded: records are taken
//! from the front, one fully consumed before the next begins, until a read
//! fails; every failure is fatal and ends the loop.

use crate::codec::DecodeError;
use crate::codec::HEADER_SIZE;
use crate::codec::Header;
use crate::codec::header_of;
use crate::codec::lemma_header_round_trip;
use crate::codec::read_report;
use crate::codec::spec_encode_header;
use crate::render::SensorType;
use crate::render::decode_and_render;
use crate::render::rendered_line;
use vstd::prelude::*;
use vstd::slice::*;

verus! {

/// The lines the decode loop prints for the available bytes of a stream,
/// and the error that ends it: records decode from the front until the bytes
/// run out mid-record (a short read) or a payload is too short for the
/// selected sensor type. No line is emitted for a partial record.
pub open spec fn spec_decode_stream(
    s: Seq<u8>,
    sensor_type: SensorType,
    show_usage: bool,
) -> (Seq<Seq<char>>, DecodeError)
    decreases s.len(),
{
    if s.len() < HEADER_SIZE + header_of(s).length {
        (Seq::empty(), DecodeError::ShortRead)
    } else {
        let header = header_of(s);
        let payload = s.subrange(HEADER_SIZE as int, HEADER_SIZE + header.length);
        match rendered_line(header, payload, sensor_type, show_usage) {
            Option::None => (Seq::empty(), DecodeError::PayloadTooShort),
            Option::Some(line) => {
                let rest = spec_decode_stream(
                    s.skip(HEADER_SIZE + header.length),
                    sensor_type,
                    show_usage,
                );
                (seq![line] + rest.0, rest.1)
            },
        }
    }
}

/// Runs the decode loop over the available bytes: returns every line a
/// complete, renderable record at the front produced, in arrival order, and
/// the fatal error that ended the loop.
pub fn decode_stream(input: &[u8], sensor_type: SensorType, show_usage: bool) -> (r: (
    Vec<String>,
    DecodeError,
))
    ensures
        r.0@.map_values(|line: String| line@) == spec_decode_stream(
            input@,
            sensor_type,
            show_usage,
        ).0,
        r.1 == spec_decode_stream(input@, sensor_type, show_usage).1,
{
    let ghost whole = spec_decode_stream(input@, sensor_type, show_usage);
    let mut lines: Vec<String> = Vec::new();
    let mut pos: usize = 0;
    proof {
        assert(input@.skip(0) =~= input@);
        assert(lines@.map_values(|line: String| line@) =~= Seq::<Seq<char>>::empty());
        assert(Seq::<Seq<char>>::empty() + whole.0 =~= whole.0);
    }
    loop
        invariant
            pos <= input@.len(),
            whole == spec_decode_stream(input@, sensor_type, show_usage),
            whole.0 == lines@.map_values(|line: String| line@) + spec_decode_stream(
                input@.skip(pos as int),
                sensor_type,
                show_usage,
            ).0,
            whole.1 == spec_decode_stream(input@.skip(pos as int), sensor_type, show_usage).1,
        decreases input@.len() - pos,
    {
        let rest = slice_subrange(input, pos, input.len());
        proof {
            assert(rest@ =~= input@.skip(pos as int));
        }
        match read_report(rest) {
            Result::Err(e) => {
                proof {
                    assert(lines@.map_values(|line: String| line@) + Seq::<Seq<char>>::empty()
                        =~= lines@.map_values(|line: String| line@));
                }
                return (lines, e);
            },
            Result::Ok(report) => {
                let ghost header = header_of(rest@);
                let ghost payload = rest@.subrange(HEADER_SIZE as int, HEADER_SIZE + header.length);
                match decode_and_render(&report, sensor_type, show_usage) {
                    Result::Err(e) => {
                        proof {
                            assert(lines@.map_values(|line: String| line@)
                                + Seq::<Seq<char>>::empty() =~= lines@.map_values(
                                |line: String| line@,
                            ));
                        }
                        return (lines, e);
                    },
                    Result::Ok(line) => {
                        let ghost prev_lines = lines@;
                        let ghost consumed = HEADER_SIZE + header.length;
                        lines.push(line);
                        proof {
                            assert(lines@.map_values(|l: String| l@) =~= prev_lines.map_values(
                                |l: String| l@,
                            ) + seq![line@]);
                            assert(rest@.skip(consumed) =~= input@.skip(pos + consumed));
                            let tail = spec_decode_stream(
                                rest@.skip(consumed),
                                sensor_type,
                                show_usage,
                            );
                            assert(spec_decode_stream(rest@, sensor_type, show_usage).0 == seq![
                                line@,
                            ] + tail.0);
                            assert(prev_lines.map_values(|l: String| l@) + (seq![line@] + tail.0)
                                =~= lines@.map_values(|l: String| l@) + tail.0);
                        }
                        pos = pos + HEADER_SIZE + (report.header.length as usize);
                    },
                }
            },
        }
    }
}

/// Law: a header that declares `length` followed by fewer payload bytes than
/// that ends the loop with a short read, and no line is emitted for the
/// partial record.
pub proof fn lemma_short_payload_terminates(
    h: Header,
    bytes: Seq<u8>,
    sensor_type: SensorType,
    show_usage: bool,
)
    requires
        bytes.len() < h.length,
    ensures
        spec_decode_stream(spec_encode_header(h) + bytes, sensor_type, show_usage) == (
            Seq::<Seq<char>>::empty(),
            DecodeError::ShortRead,
        ),
{
    lemma_header_round_trip(h, bytes);
}

/// Law: one complete, renderable record at the front of the stream yields
/// exactly its line, followed by whatever the remaining bytes yield; the
/// error that ends the loop is the remainder's.
pub proof fn lemma_stream_step(
    h: Header,
    payload: Seq<u8>,
    rest: Seq<u8>,
    sensor_type: SensorType,
    show_usage: bool,
)
    requires
        payload.len() == h.length,
        rendered_line(h, payload, sensor_type, show_usage) is Some,
    ensures
        spec_decode_stream(spec_encode_header(h) + payload + rest, sensor_type, show_usage) == (
            seq![rendered_line(h, payload, sensor_type, show_usage)->0] + spec_decode_stream(
                rest,
                sensor_type,
                show_usage,
            ).0,
            spec_decode_stream(rest, sensor_type, show_usage).1,
        ),
{
    let s = spec_encode_header(h) + payload + rest;
    assert(s =~= spec_encode_header(h) + (payload + rest));
    lemma_header_round_trip(h, payload + rest);
    assert(s.subrange(HEADER_SIZE as int, HEADER_SIZE + h.length) =~= payload);
    assert(s.skip(HEADER_SIZE + h.length) =~= rest);
}

/// Law: a stream that ends exactly between two complete records (no partial
/// header follows) yields both lines and then ends the loop with a short
/// read on the next header.
pub proof fn lemma_end_between_records(
    h1: Header,
    p1: Seq<u8>,
    h2: Header,
    p2: Seq<u8>,
    sensor_type: SensorType,
    show_usage: bool,
)
    requires
        p1.len() == h1.length,
        p2.len() == h2.length,
        rendered_line(h1, p1, sensor_type, show_usage) is Some,
        rendered_line(h2, p2, sensor_type, show_usage) is Some,
    ensures
        spec_decode_stream(
            spec_encode_header(h1) + p1 + spec_encode_header(h2) + p2,
            sensor_type,
            show_usage,
        ) == (
            seq![
                rendered_line(h1, p1, sensor_type, show_usage)->0,
                rendered_line(h2, p2, sensor_type, show_usage)->0,
            ],
            DecodeError::ShortRead,
        ),
{
    let line1 = rendered_line(h1, p1, sensor_type, show_usage)->0;
    let line2 = rendered_line(h2, p2, sensor_type, show_usage)->0;
    let second = spec_encode_header(h2) + p2;
    assert(spec_encode_header(h1) + p1 + spec_encode_header(h2) + p2 =~= spec_encode_header(h1)
        + p1 + second);
    lemma_stream_step(h1, p1, second, sensor_type, show_usage);
    assert(second =~= spec_encode_header(h2) + p2 + Seq::<u8>::empty());
    lemma_stream_step(h2, p2, Seq::empty(), sensor_type, show_usage);
    assert(Seq::<u8>::empty().len() < HEADER_SIZE + header_of(Seq::empty()).length);
    assert(seq![line1] + (seq![line2] + Seq::<Seq<char>>::empty()) =~= seq![line1, line2]);
}

} // verus!
