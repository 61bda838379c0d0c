//! Decoder for the BCSV binary columnar table format: a little-endian header,
//! a table of (hash, offset) field descriptors whose byte sizes are derived
//! from consecutive offsets, and a body of records whose value blocks are
//! reached through per-record position pointers.

pub mod bcsv;
pub mod bcsv_value;
pub mod bytes;
pub mod data_type;
pub mod error;
pub mod field;
pub mod hashes;
pub mod text;
