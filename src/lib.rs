//! Locating and decoding ADTS frame headers in an in-memory AAC elementary stream.

pub mod bits;
pub mod error;
pub mod stream;
pub mod scan;
pub mod header;
pub mod walk;
