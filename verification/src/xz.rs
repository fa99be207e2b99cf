//! Streams in the xz format.

pub mod bufread;
pub mod read;
pub mod stream;
