//! Decoder for framed binary sensor reports.
//!
//! A report on the wire is a 16-byte little-endian header (usage code,
//! timestamp, payload length) followed by exactly `length` payload bytes.
//! The library decodes the framing and renders each report as one line of
//! text whose layout depends on the selected sensor type.

pub mod codec;
pub mod render;
pub mod stream;
pub mod text;

pub use codec::DecodeError;
pub use codec::HEADER_SIZE;
pub use codec::Header;
pub use codec::Report;
pub use codec::encode_header;
pub use codec::header_of;
pub use codec::read_header;
pub use codec::read_report;
pub use render::SensorType;
pub use render::decode_and_render;
pub use stream::decode_stream;
