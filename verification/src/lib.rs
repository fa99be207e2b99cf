//! Tar-style archive streams: recognising their format, choosing codec
//! parameters, driving the codecs, and placing extracted entries safely.

pub mod bytes;
pub mod cli;
pub mod codec;
pub mod comp;
pub mod confine;
pub mod extract;
pub mod gz;
pub mod header;
pub mod pattern;
pub mod select;
pub mod source;
pub mod xz;
