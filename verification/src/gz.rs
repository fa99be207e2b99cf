//! Streams in the gzip format: a header, deflate data, and a trailer with
//! the checksum and the length of the data.

pub mod crc;
pub mod encoder;
pub mod header;
pub mod laws;
pub mod multi;
pub mod read;
pub mod stream;
pub mod write;
