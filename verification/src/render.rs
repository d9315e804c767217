//! Sensor-specific interpretation of a report's payload and the exact text
//! line printed for it.

use crate::codec::DecodeError;
use crate::codec::Header;
use crate::codec::Report;
use crate::text::bool_str;
use crate::text::dec_str;
use crate::text::hex_dump;
use crate::text::hex_str;
use crate::text::pad3;
use crate::text::render_bool;
use crate::text::render_hex_dump;
use crate::text::u32_to_hex;
use crate::text::u64_to_dec;
use crate::text::u8_to_dec_pad3;
use vstd::bytes::*;
use vstd::prelude::*;
use vstd::slice::*;

verus! {

/// Which payload layout the operator selected at startup. The set is closed:
/// no sensor type is pluggable at runtime.
#[derive(Clone, Copy, Debug, PartialEq, Eq, Structural)]
pub enum SensorType {
    /// Raw payload dump.
    Raw,
    /// Ambient light sensor.
    Als,
    /// Human presence detection with proximity distance.
    Hpd,
    /// Wake on approach; its payload has no decoded fields and is dumped raw.
    Woa,
}

/// Payload offset of the ambient light illuminance field, a little-endian
/// `u32`.
pub const ALS_VALUE_OFFSET: usize = 0x1a;

/// Payload offset one past the ambient light illuminance field.
pub const ALS_VALUE_END: usize = 0x1e;

/// Payload offset of the presence distance field, a little-endian `u16` in
/// millimeters.
pub const HPD_DISTANCE_OFFSET: usize = 0x1a;

/// Payload offset one past the presence distance field.
pub const HPD_DISTANCE_END: usize = 0x1c;

/// Payload offset of the presence certainty byte, a percentage.
pub const HPD_CERTAINTY_OFFSET: usize = 0x1e;

/// Payload offset of the presence flag byte; nonzero means present.
pub const HPD_PRESENCE_OFFSET: usize = 0x1f;

/// Payload length the fixed presence offsets need.
pub const HPD_MIN_LEN: usize = 0x20;

/// The illuminance reading carried by an ambient light payload.
pub open spec fn als_value(data: Seq<u8>) -> u32
    recommends
        data.len() >= ALS_VALUE_END,
{
    spec_u32_from_le_bytes(data.subrange(ALS_VALUE_OFFSET as int, ALS_VALUE_END as int))
}

/// The distance in millimeters carried by a presence payload.
pub open spec fn hpd_distance(data: Seq<u8>) -> u16
    recommends
        data.len() >= HPD_DISTANCE_END,
{
    spec_u16_from_le_bytes(data.subrange(HPD_DISTANCE_OFFSET as int, HPD_DISTANCE_END as int))
}

/// The common line prefix: the timestamp, then optionally the usage code in
/// hexadecimal.
pub open spec fn line_prefix(header: Header, show_usage: bool) -> Seq<char> {
    if show_usage {
        dec_str(header.timestamp as nat) + ": 0x"@ + hex_str(header.usage as nat) + " "@
    } else {
        dec_str(header.timestamp as nat) + ": "@
    }
}

/// The exact line printed for a report, or `None` where the payload is too
/// short for the fixed offsets of the selected sensor type.
pub open spec fn rendered_line(
    header: Header,
    data: Seq<u8>,
    sensor_type: SensorType,
    show_usage: bool,
) -> Option<Seq<char>> {
    match sensor_type {
        SensorType::Als => if data.len() >= ALS_VALUE_END {
            Some(line_prefix(header, show_usage) + "illuminance: "@ + dec_str(als_value(data) as nat))
        } else {
            None
        },
        SensorType::Hpd => if data.len() >= HPD_MIN_LEN {
            Some(
                line_prefix(header, show_usage) + "distance: "@ + dec_str(
                    hpd_distance(data) as nat,
                ) + "mm, certainty: "@ + pad3(dec_str(data[HPD_CERTAINTY_OFFSET as int] as nat))
                    + "%, presence: "@ + bool_str(data[HPD_PRESENCE_OFFSET as int] != 0),
            )
        } else {
            None
        },
        _ => Some(line_prefix(header, show_usage) + "raw: "@ + hex_dump(data)),
    }
}

/// Law: where the ambient light bytes of the payload encode `v`
/// little-endian, the rendered line carries exactly `v` as the illuminance
/// reading.
pub proof fn lemma_als_renders_encoded_value(
    header: Header,
    data: Seq<u8>,
    v: u32,
    show_usage: bool,
)
    requires
        data.len() >= ALS_VALUE_END,
        data.subrange(ALS_VALUE_OFFSET as int, ALS_VALUE_END as int) == spec_u32_to_le_bytes(v),
    ensures
        rendered_line(header, data, SensorType::Als, show_usage) == Some(
            line_prefix(header, show_usage) + "illuminance: "@ + dec_str(v as nat),
        ),
{
    lemma_auto_spec_u32_to_from_le_bytes();
    assert(spec_u32_to_le_bytes(v).len() == 4);
    assert(als_value(data) == v);
}

/// Law: where the distance bytes of the payload encode `d` little-endian,
/// the rendered presence line carries exactly `d` as the distance, the
/// certainty byte width-3 space-padded, and the presence byte as the truth
/// of its being nonzero.
pub proof fn lemma_hpd_renders_encoded_fields(
    header: Header,
    data: Seq<u8>,
    d: u16,
    show_usage: bool,
)
    requires
        data.len() >= HPD_MIN_LEN,
        data.subrange(HPD_DISTANCE_OFFSET as int, HPD_DISTANCE_END as int)
            == spec_u16_to_le_bytes(d),
    ensures
        rendered_line(header, data, SensorType::Hpd, show_usage) == Some(
            line_prefix(header, show_usage) + "distance: "@ + dec_str(d as nat)
                + "mm, certainty: "@ + pad3(dec_str(data[HPD_CERTAINTY_OFFSET as int] as nat))
                + "%, presence: "@ + bool_str(data[HPD_PRESENCE_OFFSET as int] != 0),
        ),
{
    lemma_auto_spec_u16_to_from_le_bytes();
    assert(spec_u16_to_le_bytes(d).len() == 2);
    assert(hpd_distance(data) == d);
}

/// Renders one report as its output line. Fails exactly where an ambient
/// light or presence payload is too short for the fixed field offsets; a raw
/// or wake-on-approach payload of any length is dumped as hex.
pub fn decode_and_render(report: &Report, sensor_type: SensorType, show_usage: bool) -> (r: Result<
    String,
    DecodeError,
>)
    ensures
        r is Ok <==> rendered_line(report.header, report.data@, sensor_type, show_usage) is Some,
        r matches Ok(line) ==> Some(line@) == rendered_line(
            report.header,
            report.data@,
            sensor_type,
            show_usage,
        ),
        r matches Err(e) ==> e == DecodeError::PayloadTooShort,
{
    let mut line = u64_to_dec(report.header.timestamp);
    if show_usage {
        line.append(": 0x");
        let usage_hex = u32_to_hex(report.header.usage);
        line.append(usage_hex.as_str());
        line.append(" ");
    } else {
        line.append(": ");
    }
    match sensor_type {
        SensorType::Als => {
            if report.data.len() < ALS_VALUE_END {
                return Err(DecodeError::PayloadTooShort);
            }
            let illuminance = u32_from_le_bytes(
                slice_subrange(report.data.as_slice(), ALS_VALUE_OFFSET, ALS_VALUE_END),
            );
            line.append("illuminance: ");
            let value = u64_to_dec(illuminance as u64);
            line.append(value.as_str());
        },
        SensorType::Hpd => {
            if report.data.len() < HPD_MIN_LEN {
                return Err(DecodeError::PayloadTooShort);
            }
            let distance = u16_from_le_bytes(
                slice_subrange(report.data.as_slice(), HPD_DISTANCE_OFFSET, HPD_DISTANCE_END),
            );
            let certainty = report.data[HPD_CERTAINTY_OFFSET];
            let presence = report.data[HPD_PRESENCE_OFFSET] != 0;
            line.append("distance: ");
            let distance_text = u64_to_dec(distance as u64);
            line.append(distance_text.as_str());
            line.append("mm, certainty: ");
            let certainty_text = u8_to_dec_pad3(certainty);
            line.append(certainty_text.as_str());
            line.append("%, presence: ");
            line.append(render_bool(presence));
        },
        _ => {
            line.append("raw: ");
            let dump = render_hex_dump(report.data.as_slice());
            line.append(dump.as_str());
        },
    }
    Ok(line)
}

} // verus!
