//! Encoder that turns 2048-byte ISO user-data sectors into 2352-byte raw
//! CD-ROM Mode 1 sectors: a fixed sync pattern, a BCD timecode header, the
//! user data, an EDC checksum and the two-layer P/Q Reed-Solomon parity.

pub mod converter;
pub mod edc_ecc;
pub mod gf;
pub mod parallel;
