use read_hid_sensor::decode_and_render;
use read_hid_sensor::decode_stream;
use read_hid_sensor::encode_header;
use read_hid_sensor::read_header;
use read_hid_sensor::read_report;
use read_hid_sensor::DecodeError;
use read_hid_sensor::Header;
use read_hid_sensor::Report;
use read_hid_sensor::SensorType;

fn record_bytes(usage: u32, timestamp: u64, payload: &[u8]) -> Vec<u8> {
    let header = Header {
        usage,
        timestamp,
        length: payload.len() as u32,
    };
    let mut bytes = encode_header(&header);
    bytes.extend_from_slice(payload);
    bytes
}

fn als_payload(value: u32) -> Vec<u8> {
    let mut payload = vec![0u8; 32];
    payload[0x1a..0x1e].copy_from_slice(&value.to_le_bytes());
    payload
}

fn hpd_payload(distance: u16, certainty: u8, presence: u8) -> Vec<u8> {
    let mut payload = vec![0u8; 32];
    payload[0x1a..0x1c].copy_from_slice(&distance.to_le_bytes());
    payload[0x1e] = certainty;
    payload[0x1f] = presence;
    payload
}

#[test]
fn header_fields_round_trip() {
    let header = Header {
        usage: 0xdead_beef,
        timestamp: u64::MAX,
        length: 3,
    };
    let mut bytes = encode_header(&header);
    bytes.extend_from_slice(&[9, 8, 7]);
    let decoded = read_header(&bytes).unwrap();
    assert_eq!(decoded, header);
    let report = read_report(&bytes).unwrap();
    assert_eq!(report.header, header);
    assert_eq!(report.data, vec![9, 8, 7]);
}

#[test]
fn header_wire_layout_is_little_endian() {
    let bytes = [
        0x01, 0x00, 0x00, 0x00, // usage
        0x64, 0x00, 0x00, 0x00, 0x00, 0x00, 0x00, 0x00, // timestamp
        0x20, 0x00, 0x00, 0x00, // length
    ];
    let header = read_header(&bytes).unwrap();
    assert_eq!(header.usage, 1);
    assert_eq!(header.timestamp, 100);
    assert_eq!(header.length, 32);
}

#[test]
fn short_header_is_a_short_read() {
    let bytes = [0u8; 15];
    assert_eq!(read_header(&bytes), Err(DecodeError::ShortRead));
    assert_eq!(read_header(&[]), Err(DecodeError::ShortRead));
}

#[test]
fn report_keeps_exactly_the_declared_payload() {
    let mut bytes = record_bytes(7, 42, &[1, 2, 3, 4]);
    bytes.extend_from_slice(&[0xaa, 0xbb]); // bytes of the next record
    let report = read_report(&bytes).unwrap();
    assert_eq!(report.header.length, 4);
    assert_eq!(report.data, vec![1, 2, 3, 4]);
}

#[test]
fn short_payload_yields_no_partial_report() {
    let header = Header {
        usage: 1,
        timestamp: 2,
        length: 32,
    };
    let mut bytes = encode_header(&header);
    bytes.extend_from_slice(&[0u8; 10]);
    assert_eq!(read_report(&bytes).unwrap_err(), DecodeError::ShortRead);
}

#[test]
fn als_example_line() {
    let bytes = record_bytes(1, 100, &als_payload(1000));
    let report = read_report(&bytes).unwrap();
    let line = decode_and_render(&report, SensorType::Als, true).unwrap();
    assert_eq!(line, "100: 0x1 illuminance: 1000");
}

#[test]
fn als_line_without_usage_code() {
    let bytes = record_bytes(1, 100, &als_payload(1000));
    let report = read_report(&bytes).unwrap();
    let line = decode_and_render(&report, SensorType::Als, false).unwrap();
    assert_eq!(line, "100: illuminance: 1000");
}

#[test]
fn als_reading_is_the_encoded_value() {
    let bytes = record_bytes(0x20041, 9, &als_payload(0));
    let report = read_report(&bytes).unwrap();
    let line = decode_and_render(&report, SensorType::Als, true).unwrap();
    assert_eq!(line, "9: 0x20041 illuminance: 0");

    let bytes = record_bytes(0x20041, 9, &als_payload(u32::MAX));
    let report = read_report(&bytes).unwrap();
    let line = decode_and_render(&report, SensorType::Als, true).unwrap();
    assert_eq!(line, "9: 0x20041 illuminance: 4294967295");
}

#[test]
fn als_payload_shorter_than_its_field_fails() {
    let bytes = record_bytes(1, 2, &[0u8; 29]);
    let report = read_report(&bytes).unwrap();
    assert_eq!(
        decode_and_render(&report, SensorType::Als, true),
        Err(DecodeError::PayloadTooShort)
    );
}

#[test]
fn als_payload_of_exactly_the_field_end_works() {
    let mut payload = vec![0u8; 30];
    payload[0x1a..0x1e].copy_from_slice(&7u32.to_le_bytes());
    let bytes = record_bytes(1, 2, &payload);
    let report = read_report(&bytes).unwrap();
    let line = decode_and_render(&report, SensorType::Als, true).unwrap();
    assert_eq!(line, "2: 0x1 illuminance: 7");
}

#[test]
fn hpd_line_carries_all_three_fields() {
    let bytes = record_bytes(0x2b, 77, &hpd_payload(1234, 5, 7));
    let report = read_report(&bytes).unwrap();
    let line = decode_and_render(&report, SensorType::Hpd, true).unwrap();
    assert_eq!(line, "77: 0x2b distance: 1234mm, certainty:   5%, presence: true");
}

#[test]
fn hpd_certainty_is_padded_to_width_three() {
    let report = Report {
        header: Header {
            usage: 1,
            timestamp: 0,
            length: 32,
        },
        data: hpd_payload(0, 42, 0),
    };
    let line = decode_and_render(&report, SensorType::Hpd, true).unwrap();
    assert_eq!(line, "0: 0x1 distance: 0mm, certainty:  42%, presence: false");

    let report = Report {
        header: Header {
            usage: 1,
            timestamp: 0,
            length: 32,
        },
        data: hpd_payload(65535, 255, 1),
    };
    let line = decode_and_render(&report, SensorType::Hpd, true).unwrap();
    assert_eq!(line, "0: 0x1 distance: 65535mm, certainty: 255%, presence: true");
}

#[test]
fn hpd_payload_shorter_than_its_fields_fails() {
    let bytes = record_bytes(1, 2, &[0u8; 31]);
    let report = read_report(&bytes).unwrap();
    assert_eq!(
        decode_and_render(&report, SensorType::Hpd, true),
        Err(DecodeError::PayloadTooShort)
    );
}

#[test]
fn raw_line_is_a_lowercase_hex_dump_in_byte_order() {
    let bytes = record_bytes(3, 5, &[0x1a, 0x2b, 0x03, 0xff]);
    let report = read_report(&bytes).unwrap();
    let line = decode_and_render(&report, SensorType::Raw, true).unwrap();
    assert_eq!(line, "5: 0x3 raw: [1a, 2b, 03, ff]");
}

#[test]
fn woa_dumps_the_payload_raw() {
    let bytes = record_bytes(3, 5, &[0xab]);
    let report = read_report(&bytes).unwrap();
    let line = decode_and_render(&report, SensorType::Woa, true).unwrap();
    assert_eq!(line, "5: 0x3 raw: [ab]");
}

#[test]
fn raw_empty_payload_dumps_empty_brackets() {
    let bytes = record_bytes(0, 0, &[]);
    let report = read_report(&bytes).unwrap();
    let line = decode_and_render(&report, SensorType::Raw, true).unwrap();
    assert_eq!(line, "0: 0x0 raw: []");
}

#[test]
fn stream_of_two_records_ends_with_a_short_read() {
    let mut bytes = record_bytes(1, 100, &als_payload(1000));
    bytes.extend_from_slice(&record_bytes(1, 101, &als_payload(50)));
    let (lines, err) = decode_stream(&bytes, SensorType::Als, true);
    assert_eq!(
        lines,
        vec![
            "100: 0x1 illuminance: 1000".to_string(),
            "101: 0x1 illuminance: 50".to_string(),
        ]
    );
    assert_eq!(err, DecodeError::ShortRead);
}

#[test]
fn stream_with_a_truncated_record_emits_no_partial_line() {
    let mut bytes = record_bytes(1, 100, &als_payload(1000));
    let header = Header {
        usage: 1,
        timestamp: 101,
        length: 32,
    };
    bytes.extend_from_slice(&encode_header(&header));
    bytes.extend_from_slice(&[0u8; 5]);
    let (lines, err) = decode_stream(&bytes, SensorType::Als, true);
    assert_eq!(lines, vec!["100: 0x1 illuminance: 1000".to_string()]);
    assert_eq!(err, DecodeError::ShortRead);
}

#[test]
fn stream_stops_on_a_payload_too_short_for_the_sensor() {
    let mut bytes = record_bytes(1, 100, &[0u8; 4]);
    bytes.extend_from_slice(&record_bytes(1, 101, &als_payload(50)));
    let (lines, err) = decode_stream(&bytes, SensorType::Als, true);
    assert_eq!(lines, Vec::<String>::new());
    assert_eq!(err, DecodeError::PayloadTooShort);
}

#[test]
fn stream_of_raw_records_dumps_each_payload() {
    let mut bytes = record_bytes(2, 7, &[0xde, 0xad]);
    bytes.extend_from_slice(&record_bytes(2, 8, &[]));
    let (lines, err) = decode_stream(&bytes, SensorType::Raw, false);
    assert_eq!(
        lines,
        vec!["7: raw: [de, ad]".to_string(), "8: raw: []".to_string()]
    );
    assert_eq!(err, DecodeError::ShortRead);
}
