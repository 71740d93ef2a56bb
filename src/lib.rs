//! Server-side decoding of HAProxy PROXY protocol headers (text v1 and
//! binary v2), with exact framing of the header bytes on a byte stream.

pub mod config;
pub mod frame;
pub mod parser;
pub mod tlv;
pub mod types;
pub mod v1;
pub mod v2;
