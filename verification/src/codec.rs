//! The codecs of other crates.
//!
//! An encoder of another crate is generic over the writer it fills, and a
//! decoder over the reader it drains. Here the writer is always a byte
//! vector that starts empty and the reader always a buffered cursor over a
//! byte vector. Where the type of the other crate asks of its parameter that
//! it be a writer or a reader, it is held in a handle whose inside is not
//! looked into; the other types are used as they are.
//!
//! The bytes that the codecs make are not worked out here. What a call
//! comes to has a name: the count or the bytes it gives, or the error with
//! which it fails, and the state in which it leaves the encoder or decoder. These depend on the state before
//! and on what the call is given, and on nothing else. Beyond the names,
//! what is taken on trust is what `std::io` asks of any writer and reader: a
//! call takes or gives at most as many bytes as the buffer holds, and a
//! reader leaves the length of the buffer alone.

use std::io::{BufReader, Cursor};
use vstd::prelude::*;

verus! {

#[verifier::external_type_specification]
#[verifier::external_body]
pub struct ExIoError(std::io::Error);

#[verifier::external_type_specification]
#[verifier::external_body]
#[verifier::reject_recursive_types(R)]
pub struct ExBufReader<R: ?Sized>(BufReader<R>);

#[verifier::external_type_specification]
#[verifier::external_body]
#[verifier::reject_recursive_types(T)]
pub struct ExCursor<T>(Cursor<T>);

#[verifier::external_type_specification]
#[verifier::external_body]
#[verifier::reject_recursive_types(R)]
pub struct ExBzDecoder<R>(bzip2::read::BzDecoder<R>);

#[verifier::external_type_specification]
#[verifier::external_body]
#[verifier::reject_recursive_types(R)]
pub struct ExZstdDecoder<'a, R>(zstd::stream::read::Decoder<'a, R>);

#[verifier::external_type_specification]
#[verifier::external_body]
#[verifier::reject_recursive_types(W)]
pub struct ExLz4Encoder<W>(lz4::Encoder<W>);

#[verifier::external_type_specification]
#[verifier::external_body]
#[verifier::reject_recursive_types(R)]
pub struct ExLz4Decoder<R>(lz4::Decoder<R>);

#[verifier::external_type_specification]
pub struct ExBrotliMode(brotli2::CompressMode);

#[verifier::external_type_specification]
pub struct ExLz4BlockSize(lz4::BlockSize);

#[verifier::external_type_specification]
pub struct ExLz4BlockMode(lz4::BlockMode);

#[verifier::external_type_specification]
pub struct ExLz4ContentChecksum(lz4::ContentChecksum);

/// A `bzip2::write::BzEncoder` that fills a byte vector.
#[verifier::external_body]
pub struct BzWriter {
    inner: bzip2::write::BzEncoder<Vec<u8>>,
}

/// A `bzip2::read::BzDecoder` that drains a byte vector.
pub type BzReader = bzip2::read::BzDecoder<BufReader<Cursor<Vec<u8>>>>;

/// A `snap::write::FrameEncoder` that fills a byte vector.
#[verifier::external_body]
pub struct SzWriter {
    inner: snap::write::FrameEncoder<Vec<u8>>,
}

/// A `snap::read::FrameDecoder` that drains a byte vector.
#[verifier::external_body]
pub struct SzReader {
    inner: snap::read::FrameDecoder<BufReader<Cursor<Vec<u8>>>>,
}

/// A `brotli2::write::BrotliEncoder` that fills a byte vector.
#[verifier::external_body]
pub struct BrWriter {
    inner: brotli2::write::BrotliEncoder<Vec<u8>>,
}

/// A `brotli2::read::BrotliDecoder` that drains a byte vector.
#[verifier::external_body]
pub struct BrReader {
    inner: brotli2::read::BrotliDecoder<BufReader<Cursor<Vec<u8>>>>,
}

/// A `zstd::stream::write::Encoder` that fills a byte vector.
#[verifier::external_body]
pub struct ZstWriter {
    inner: zstd::stream::write::Encoder<'static, Vec<u8>>,
}

/// A `zstd::stream::read::Decoder` that drains a byte vector.
pub type ZstReader = zstd::stream::read::Decoder<'static, BufReader<BufReader<Cursor<Vec<u8>>>>>;

/// An `lz4::Encoder` that fills a byte vector.
pub type Lz4Writer = lz4::Encoder<Vec<u8>>;

/// An `lz4::Decoder` that drains a byte vector.
pub type Lz4Reader = lz4::Decoder<BufReader<Cursor<Vec<u8>>>>;

/// An `xz2::write::XzEncoder` that fills a byte vector.
#[verifier::external_body]
pub struct XzWriter {
    inner: xz2::write::XzEncoder<Vec<u8>>,
}

/// The capacity of the buffer between a decoder and its input.
pub const BUFFER: usize = 131072;

/// The encoder that `bzip2::write::BzEncoder::new` makes over an empty
/// vector for a level.
pub uninterp spec fn bz_fresh(level: u32) -> BzWriter;

/// `bzip2::write::BzEncoder::new` over an empty vector, the level going
/// through `bzip2::Compression::new`, which takes 1 to 9.
#[verifier::external_body]
pub(crate) fn bz_encoder(level: u32) -> (w: BzWriter)
    requires
        1 <= level <= 9,
    ensures
        w == bz_fresh(level),
{
    BzWriter { inner: bzip2::write::BzEncoder::new(Vec::new(), bzip2::Compression::new(level)) }
}

/// The count of bytes that `write` of `bzip2::write::BzEncoder` takes of `buf` for an
/// encoder in the state `w`, or the error with which it fails.
pub uninterp spec fn bz_write_gives(w: BzWriter, buf: Seq<u8>) -> Result<nat, std::io::Error>;

/// The state in which such a call of `write` leaves the encoder.
pub uninterp spec fn bz_write_leaves(w: BzWriter, buf: Seq<u8>) -> BzWriter;

/// `write` of `bzip2::write::BzEncoder`: what it returns and how it leaves the encoder
/// depend on the encoder and the buffer alone. It takes at most the whole
/// buffer.
#[verifier::external_body]
pub(crate) fn bz_write(w: &mut BzWriter, buf: &[u8]) -> (r: Result<usize, std::io::Error>)
    ensures
        match r {
            Ok(n) => bz_write_gives(*old(w), buf@) == Ok::<nat, std::io::Error>(n as nat),
            Err(e) => bz_write_gives(*old(w), buf@) == Err::<nat, std::io::Error>(e),
        },
        *final(w) == bz_write_leaves(*old(w), buf@),
        r matches Ok(n) ==> n <= buf@.len(),
{
    std::io::Write::write(&mut w.inner, buf)
}

/// The bytes that `bzip2::write::BzEncoder::finish` hands out for an encoder in the state
/// `w`, or the error with which it fails.
pub uninterp spec fn bz_finish_gives(w: BzWriter) -> Result<Seq<u8>, std::io::Error>;

/// `bzip2::write::BzEncoder::finish`: completes the stream and
/// hands out the vector. What it hands out depends on the encoder alone.
#[verifier::external_body]
pub(crate) fn bz_finish(w: BzWriter) -> (r: Result<Vec<u8>, std::io::Error>)
    ensures
        match r {
            Ok(out) => bz_finish_gives(w) == Ok::<Seq<u8>, std::io::Error>(out@),
            Err(e) => bz_finish_gives(w) == Err::<Seq<u8>, std::io::Error>(e),
        },
{
    w.inner.finish()
}

/// The decoder that `bzip2::read::BzDecoder::new` makes over the bytes
/// `data`.
pub uninterp spec fn bz_reader(data: Seq<u8>) -> BzReader;

/// `bzip2::read::BzDecoder::new` over the bytes of `data`.
#[verifier::external_body]
pub(crate) fn bz_decoder(data: Vec<u8>) -> (d: BzReader)
    ensures
        d == bz_reader(data@),
{
    bzip2::read::BzDecoder::new(BufReader::with_capacity(BUFFER, Cursor::new(data)))
}

/// The bytes that `read` of `bzip2::read::BzDecoder` gives for a decoder in the state
/// `d` and a buffer with room for `room` bytes, or the error with which it fails.
pub uninterp spec fn bz_read_gives(d: BzReader, room: nat) -> Result<Seq<u8>, std::io::Error>;

/// The state in which such a call of `read` leaves the decoder.
pub uninterp spec fn bz_read_leaves(d: BzReader, room: nat) -> BzReader;

/// `read` of `bzip2::read::BzDecoder`: what it gives and how it leaves the decoder
/// depend on the decoder and the room in the buffer alone. It gives at most
/// as many bytes as the buffer holds, at its front, and leaves its length
/// alone.
#[verifier::external_body]
pub(crate) fn bz_read(d: &mut BzReader, buf: &mut [u8]) -> (r: Result<usize, std::io::Error>)
    ensures
        match r {
            Ok(n) => bz_read_gives(*old(d), old(buf)@.len()) == Ok::<Seq<u8>, std::io::Error>(
                final(buf)@.subrange(0, n as int),
            ),
            Err(e) => bz_read_gives(*old(d), old(buf)@.len()) == Err::<Seq<u8>, std::io::Error>(e),
        },
        *final(d) == bz_read_leaves(*old(d), old(buf)@.len()),
        final(buf)@.len() == old(buf)@.len(),
        r matches Ok(n) ==> n <= old(buf)@.len(),
{
    std::io::Read::read(d, buf)
}

/// `snap::write::FrameEncoder::new` over an empty vector.
#[verifier::external_body]
pub(crate) fn sz_encoder() -> (w: SzWriter) {
    SzWriter { inner: snap::write::FrameEncoder::new(Vec::new()) }
}

/// The count of bytes that `write` of `snap::write::FrameEncoder` takes of `buf` for an
/// encoder in the state `w`, or the error with which it fails.
pub uninterp spec fn sz_write_gives(w: SzWriter, buf: Seq<u8>) -> Result<nat, std::io::Error>;

/// The state in which such a call of `write` leaves the encoder.
pub uninterp spec fn sz_write_leaves(w: SzWriter, buf: Seq<u8>) -> SzWriter;

/// `write` of `snap::write::FrameEncoder`: what it returns and how it leaves the encoder
/// depend on the encoder and the buffer alone. It takes at most the whole
/// buffer.
#[verifier::external_body]
pub(crate) fn sz_write(w: &mut SzWriter, buf: &[u8]) -> (r: Result<usize, std::io::Error>)
    ensures
        match r {
            Ok(n) => sz_write_gives(*old(w), buf@) == Ok::<nat, std::io::Error>(n as nat),
            Err(e) => sz_write_gives(*old(w), buf@) == Err::<nat, std::io::Error>(e),
        },
        *final(w) == sz_write_leaves(*old(w), buf@),
        r matches Ok(n) ==> n <= buf@.len(),
{
    std::io::Write::write(&mut w.inner, buf)
}

/// The bytes that `snap::write::FrameEncoder::into_inner` hands out for an encoder in the state
/// `w`, or the error with which it fails.
pub uninterp spec fn sz_finish_gives(w: SzWriter) -> Result<Seq<u8>, std::io::Error>;

/// `snap::write::FrameEncoder::into_inner`: writes what is buffered
/// and hands out the vector. What it hands out depends on the encoder alone.
#[verifier::external_body]
pub(crate) fn sz_finish(w: SzWriter) -> (r: Result<Vec<u8>, std::io::Error>)
    ensures
        match r {
            Ok(out) => sz_finish_gives(w) == Ok::<Seq<u8>, std::io::Error>(out@),
            Err(e) => sz_finish_gives(w) == Err::<Seq<u8>, std::io::Error>(e),
        },
{
    w.inner.into_inner().map_err(|e| e.into_error())
}

/// The decoder that `snap::read::FrameDecoder::new` makes over the bytes
/// `data`.
pub uninterp spec fn sz_reader(data: Seq<u8>) -> SzReader;

/// `snap::read::FrameDecoder::new` over the bytes of `data`.
#[verifier::external_body]
pub(crate) fn sz_decoder(data: Vec<u8>) -> (d: SzReader)
    ensures
        d == sz_reader(data@),
{
    SzReader {
        inner: snap::read::FrameDecoder::new(BufReader::with_capacity(BUFFER, Cursor::new(data))),
    }
}

/// The bytes that `read` of `snap::read::FrameDecoder` gives for a decoder in the state
/// `d` and a buffer with room for `room` bytes, or the error with which it fails.
pub uninterp spec fn sz_read_gives(d: SzReader, room: nat) -> Result<Seq<u8>, std::io::Error>;

/// The state in which such a call of `read` leaves the decoder.
pub uninterp spec fn sz_read_leaves(d: SzReader, room: nat) -> SzReader;

/// `read` of `snap::read::FrameDecoder`: what it gives and how it leaves the decoder
/// depend on the decoder and the room in the buffer alone. It gives at most
/// as many bytes as the buffer holds, at its front, and leaves its length
/// alone.
#[verifier::external_body]
pub(crate) fn sz_read(d: &mut SzReader, buf: &mut [u8]) -> (r: Result<usize, std::io::Error>)
    ensures
        match r {
            Ok(n) => sz_read_gives(*old(d), old(buf)@.len()) == Ok::<Seq<u8>, std::io::Error>(
                final(buf)@.subrange(0, n as int),
            ),
            Err(e) => sz_read_gives(*old(d), old(buf)@.len()) == Err::<Seq<u8>, std::io::Error>(e),
        },
        *final(d) == sz_read_leaves(*old(d), old(buf)@.len()),
        final(buf)@.len() == old(buf)@.len(),
        r matches Ok(n) ==> n <= old(buf)@.len(),
{
    std::io::Read::read(&mut d.inner, buf)
}

/// The encoder that `brotli2::write::BrotliEncoder::new` makes over an
/// empty vector for a quality level.
pub uninterp spec fn br_fresh(level: u32) -> BrWriter;

/// The encoder that `brotli2::write::BrotliEncoder::from_params` makes over
/// an empty vector for a mode, a quality, window bits and block bits.
pub uninterp spec fn br_fresh_from(
    mode: brotli2::CompressMode,
    quality: u32,
    lgwin: u32,
    lgblock: u32,
) -> BrWriter;

/// `brotli2::write::BrotliEncoder::new` over an empty vector.
#[verifier::external_body]
pub(crate) fn br_encoder(level: u32) -> (w: BrWriter)
    ensures
        w == br_fresh(level),
{
    BrWriter { inner: brotli2::write::BrotliEncoder::new(Vec::new(), level) }
}

/// `brotli2::write::BrotliEncoder::from_params` over an empty vector, with
/// parameters made by `brotli2::CompressParams::new` and its four setters.
#[verifier::external_body]
pub(crate) fn br_encoder_from_params(
    mode: brotli2::CompressMode,
    quality: u32,
    lgwin: u32,
    lgblock: u32,
) -> (w: BrWriter)
    ensures
        w == br_fresh_from(mode, quality, lgwin, lgblock),
{
    let mut c = brotli2::CompressParams::new();
    c.mode(mode).quality(quality).lgwin(lgwin).lgblock(lgblock);
    BrWriter { inner: brotli2::write::BrotliEncoder::from_params(Vec::new(), &c) }
}

/// The count of bytes that `write` of `brotli2::write::BrotliEncoder` takes of `buf` for an
/// encoder in the state `w`, or the error with which it fails.
pub uninterp spec fn br_write_gives(w: BrWriter, buf: Seq<u8>) -> Result<nat, std::io::Error>;

/// The state in which such a call of `write` leaves the encoder.
pub uninterp spec fn br_write_leaves(w: BrWriter, buf: Seq<u8>) -> BrWriter;

/// `write` of `brotli2::write::BrotliEncoder`: what it returns and how it leaves the encoder
/// depend on the encoder and the buffer alone. It takes at most the whole
/// buffer.
#[verifier::external_body]
pub(crate) fn br_write(w: &mut BrWriter, buf: &[u8]) -> (r: Result<usize, std::io::Error>)
    ensures
        match r {
            Ok(n) => br_write_gives(*old(w), buf@) == Ok::<nat, std::io::Error>(n as nat),
            Err(e) => br_write_gives(*old(w), buf@) == Err::<nat, std::io::Error>(e),
        },
        *final(w) == br_write_leaves(*old(w), buf@),
        r matches Ok(n) ==> n <= buf@.len(),
{
    std::io::Write::write(&mut w.inner, buf)
}

/// The bytes that `brotli2::write::BrotliEncoder::finish` hands out for an encoder in the state
/// `w`, or the error with which it fails.
pub uninterp spec fn br_finish_gives(w: BrWriter) -> Result<Seq<u8>, std::io::Error>;

/// `brotli2::write::BrotliEncoder::finish`: completes the stream
/// and hands out the vector. What it hands out depends on the encoder alone.
#[verifier::external_body]
pub(crate) fn br_finish(w: BrWriter) -> (r: Result<Vec<u8>, std::io::Error>)
    ensures
        match r {
            Ok(out) => br_finish_gives(w) == Ok::<Seq<u8>, std::io::Error>(out@),
            Err(e) => br_finish_gives(w) == Err::<Seq<u8>, std::io::Error>(e),
        },
{
    w.inner.finish()
}

/// The decoder that `brotli2::read::BrotliDecoder::new` makes over the
/// bytes `data`.
pub uninterp spec fn br_reader(data: Seq<u8>) -> BrReader;

/// `brotli2::read::BrotliDecoder::new` over the bytes of `data`.
#[verifier::external_body]
pub(crate) fn br_decoder(data: Vec<u8>) -> (d: BrReader)
    ensures
        d == br_reader(data@),
{
    BrReader {
        inner: brotli2::read::BrotliDecoder::new(
            BufReader::with_capacity(BUFFER, Cursor::new(data)),
        ),
    }
}

/// The bytes that `read` of `brotli2::read::BrotliDecoder` gives for a decoder in the state
/// `d` and a buffer with room for `room` bytes, or the error with which it fails.
pub uninterp spec fn br_read_gives(d: BrReader, room: nat) -> Result<Seq<u8>, std::io::Error>;

/// The state in which such a call of `read` leaves the decoder.
pub uninterp spec fn br_read_leaves(d: BrReader, room: nat) -> BrReader;

/// `read` of `brotli2::read::BrotliDecoder`: what it gives and how it leaves the decoder
/// depend on the decoder and the room in the buffer alone. It gives at most
/// as many bytes as the buffer holds, at its front, and leaves its length
/// alone.
#[verifier::external_body]
pub(crate) fn br_read(d: &mut BrReader, buf: &mut [u8]) -> (r: Result<usize, std::io::Error>)
    ensures
        match r {
            Ok(n) => br_read_gives(*old(d), old(buf)@.len()) == Ok::<Seq<u8>, std::io::Error>(
                final(buf)@.subrange(0, n as int),
            ),
            Err(e) => br_read_gives(*old(d), old(buf)@.len()) == Err::<Seq<u8>, std::io::Error>(e),
        },
        *final(d) == br_read_leaves(*old(d), old(buf)@.len()),
        final(buf)@.len() == old(buf)@.len(),
        r matches Ok(n) ==> n <= old(buf)@.len(),
{
    std::io::Read::read(&mut d.inner, buf)
}

/// The encoder that `zstd::stream::write::Encoder::new` makes over an empty
/// vector for a level, or the error with which it refuses.
pub uninterp spec fn zst_encoder_gives(level: i32) -> Result<ZstWriter, std::io::Error>;

/// `zstd::stream::write::Encoder::new` over an empty vector. The codec may
/// refuse; whether it does depends on the level alone.
#[verifier::external_body]
pub(crate) fn zst_encoder(level: i32) -> (r: Result<ZstWriter, std::io::Error>)
    ensures
        match r {
            Ok(w) => zst_encoder_gives(level) == Ok::<ZstWriter, std::io::Error>(w),
            Err(e) => zst_encoder_gives(level) == Err::<ZstWriter, std::io::Error>(e),
        },
{
    zstd::stream::write::Encoder::new(Vec::new(), level).map(|inner| ZstWriter { inner })
}

/// The count of bytes that `write` of `zstd::stream::write::Encoder` takes of `buf` for an
/// encoder in the state `w`, or the error with which it fails.
pub uninterp spec fn zst_write_gives(w: ZstWriter, buf: Seq<u8>) -> Result<nat, std::io::Error>;

/// The state in which such a call of `write` leaves the encoder.
pub uninterp spec fn zst_write_leaves(w: ZstWriter, buf: Seq<u8>) -> ZstWriter;

/// `write` of `zstd::stream::write::Encoder`: what it returns and how it leaves the encoder
/// depend on the encoder and the buffer alone. It takes at most the whole
/// buffer.
#[verifier::external_body]
pub(crate) fn zst_write(w: &mut ZstWriter, buf: &[u8]) -> (r: Result<usize, std::io::Error>)
    ensures
        match r {
            Ok(n) => zst_write_gives(*old(w), buf@) == Ok::<nat, std::io::Error>(n as nat),
            Err(e) => zst_write_gives(*old(w), buf@) == Err::<nat, std::io::Error>(e),
        },
        *final(w) == zst_write_leaves(*old(w), buf@),
        r matches Ok(n) ==> n <= buf@.len(),
{
    std::io::Write::write(&mut w.inner, buf)
}

/// The bytes that `zstd::stream::write::Encoder::finish` hands out for an encoder in the state
/// `w`, or the error with which it fails.
pub uninterp spec fn zst_finish_gives(w: ZstWriter) -> Result<Seq<u8>, std::io::Error>;

/// `zstd::stream::write::Encoder::finish`: completes the
/// stream and hands out the vector. What it hands out depends on the encoder alone.
#[verifier::external_body]
pub(crate) fn zst_finish(w: ZstWriter) -> (r: Result<Vec<u8>, std::io::Error>)
    ensures
        match r {
            Ok(out) => zst_finish_gives(w) == Ok::<Seq<u8>, std::io::Error>(out@),
            Err(e) => zst_finish_gives(w) == Err::<Seq<u8>, std::io::Error>(e),
        },
{
    w.inner.finish()
}

/// The decoder that `zstd::stream::read::Decoder::new` makes over the bytes
/// `data`, or the error with which it refuses.
pub uninterp spec fn zst_decoder_gives(data: Seq<u8>) -> Result<ZstReader, std::io::Error>;

/// `zstd::stream::read::Decoder::new` over the bytes of `data`. The codec
/// may refuse.
#[verifier::external_body]
pub(crate) fn zst_decoder(data: Vec<u8>) -> (r: Result<ZstReader, std::io::Error>)
    ensures
        match r {
            Ok(d) => zst_decoder_gives(data@) == Ok::<ZstReader, std::io::Error>(d),
            Err(e) => zst_decoder_gives(data@) == Err::<ZstReader, std::io::Error>(e),
        },
{
    zstd::stream::read::Decoder::new(BufReader::with_capacity(BUFFER, Cursor::new(data)))
}

/// The bytes that `read` of `zstd::stream::read::Decoder` gives for a decoder in the state
/// `d` and a buffer with room for `room` bytes, or the error with which it fails.
pub uninterp spec fn zst_read_gives(d: ZstReader, room: nat) -> Result<Seq<u8>, std::io::Error>;

/// The state in which such a call of `read` leaves the decoder.
pub uninterp spec fn zst_read_leaves(d: ZstReader, room: nat) -> ZstReader;

/// `read` of `zstd::stream::read::Decoder`: what it gives and how it leaves the decoder
/// depend on the decoder and the room in the buffer alone. It gives at most
/// as many bytes as the buffer holds, at its front, and leaves its length
/// alone.
#[verifier::external_body]
pub(crate) fn zst_read(d: &mut ZstReader, buf: &mut [u8]) -> (r: Result<usize, std::io::Error>)
    ensures
        match r {
            Ok(n) => zst_read_gives(*old(d), old(buf)@.len()) == Ok::<Seq<u8>, std::io::Error>(
                final(buf)@.subrange(0, n as int),
            ),
            Err(e) => zst_read_gives(*old(d), old(buf)@.len()) == Err::<Seq<u8>, std::io::Error>(e),
        },
        *final(d) == zst_read_leaves(*old(d), old(buf)@.len()),
        final(buf)@.len() == old(buf)@.len(),
        r matches Ok(n) ==> n <= old(buf)@.len(),
{
    std::io::Read::read(d, buf)
}

/// The encoder that `lz4::EncoderBuilder::build` makes over an empty
/// vector for a block size, a block mode, a content checksum and a level, or
/// the error with which it refuses.
pub uninterp spec fn lz4_encoder_gives(
    block_size: lz4::BlockSize,
    block_mode: lz4::BlockMode,
    checksum: lz4::ContentChecksum,
    level: u32,
) -> Result<Lz4Writer, std::io::Error>;

/// `lz4::EncoderBuilder::build` over an empty vector, after the builder's
/// setters for block size, block mode, content checksum and level. The codec
/// may refuse; whether it does depends on these four alone.
#[verifier::external_body]
pub(crate) fn lz4_encoder(
    block_size: lz4::BlockSize,
    block_mode: lz4::BlockMode,
    checksum: lz4::ContentChecksum,
    level: u32,
) -> (r: Result<Lz4Writer, std::io::Error>)
    ensures
        match r {
            Ok(w) => lz4_encoder_gives(block_size, block_mode, checksum, level) == Ok::<
                Lz4Writer,
                std::io::Error,
            >(w),
            Err(e) => lz4_encoder_gives(block_size, block_mode, checksum, level) == Err::<
                Lz4Writer,
                std::io::Error,
            >(e),
        },
{
    let mut b = lz4::EncoderBuilder::new();
    b.level(level).block_size(block_size).block_mode(block_mode).checksum(checksum);
    b.build(Vec::new())
}

/// The count of bytes that `write` of `lz4::Encoder` takes of `buf` for an
/// encoder in the state `w`, or the error with which it fails.
pub uninterp spec fn lz4_write_gives(w: Lz4Writer, buf: Seq<u8>) -> Result<nat, std::io::Error>;

/// The state in which such a call of `write` leaves the encoder.
pub uninterp spec fn lz4_write_leaves(w: Lz4Writer, buf: Seq<u8>) -> Lz4Writer;

/// `write` of `lz4::Encoder`: what it returns and how it leaves the encoder
/// depend on the encoder and the buffer alone. It takes at most the whole
/// buffer.
#[verifier::external_body]
pub(crate) fn lz4_write(w: &mut Lz4Writer, buf: &[u8]) -> (r: Result<usize, std::io::Error>)
    ensures
        match r {
            Ok(n) => lz4_write_gives(*old(w), buf@) == Ok::<nat, std::io::Error>(n as nat),
            Err(e) => lz4_write_gives(*old(w), buf@) == Err::<nat, std::io::Error>(e),
        },
        *final(w) == lz4_write_leaves(*old(w), buf@),
        r matches Ok(n) ==> n <= buf@.len(),
{
    std::io::Write::write(w, buf)
}

/// The bytes that `lz4::Encoder::finish` hands out for an encoder in the
/// state `w`, and the outcome of ending the frame: nothing, or the error.
pub uninterp spec fn lz4_finish_gives(w: Lz4Writer) -> (Seq<u8>, Result<(), std::io::Error>);

/// `lz4::Encoder::finish`: ends the frame and hands out the vector
/// together with the outcome, so what was written is there either way. What
/// it hands out depends on the encoder alone.
#[verifier::external_body]
pub(crate) fn lz4_finish(w: Lz4Writer) -> (r: (Vec<u8>, Result<(), std::io::Error>))
    ensures
        lz4_finish_gives(w) == (r.0@, r.1),
{
    w.finish()
}

/// The decoder that `lz4::Decoder::new` makes over the bytes `data`, or
/// the error with which it refuses.
pub uninterp spec fn lz4_decoder_gives(data: Seq<u8>) -> Result<Lz4Reader, std::io::Error>;

/// `lz4::Decoder::new` over the bytes of `data`. The codec may refuse.
#[verifier::external_body]
pub(crate) fn lz4_decoder(data: Vec<u8>) -> (r: Result<Lz4Reader, std::io::Error>)
    ensures
        match r {
            Ok(d) => lz4_decoder_gives(data@) == Ok::<Lz4Reader, std::io::Error>(d),
            Err(e) => lz4_decoder_gives(data@) == Err::<Lz4Reader, std::io::Error>(e),
        },
{
    lz4::Decoder::new(BufReader::with_capacity(BUFFER, Cursor::new(data)))
}

/// The bytes that `read` of `lz4::Decoder` gives for a decoder in the state
/// `d` and a buffer with room for `room` bytes, or the error with which it fails.
pub uninterp spec fn lz4_read_gives(d: Lz4Reader, room: nat) -> Result<Seq<u8>, std::io::Error>;

/// The state in which such a call of `read` leaves the decoder.
pub uninterp spec fn lz4_read_leaves(d: Lz4Reader, room: nat) -> Lz4Reader;

/// `read` of `lz4::Decoder`: what it gives and how it leaves the decoder
/// depend on the decoder and the room in the buffer alone. It gives at most
/// as many bytes as the buffer holds, at its front, and leaves its length
/// alone.
#[verifier::external_body]
pub(crate) fn lz4_read(d: &mut Lz4Reader, buf: &mut [u8]) -> (r: Result<usize, std::io::Error>)
    ensures
        match r {
            Ok(n) => lz4_read_gives(*old(d), old(buf)@.len()) == Ok::<Seq<u8>, std::io::Error>(
                final(buf)@.subrange(0, n as int),
            ),
            Err(e) => lz4_read_gives(*old(d), old(buf)@.len()) == Err::<Seq<u8>, std::io::Error>(e),
        },
        *final(d) == lz4_read_leaves(*old(d), old(buf)@.len()),
        final(buf)@.len() == old(buf)@.len(),
        r matches Ok(n) ==> n <= old(buf)@.len(),
{
    std::io::Read::read(d, buf)
}

/// The writer that `xz2::write::XzEncoder::new_stream` makes over an empty
/// vector for a stream.
pub uninterp spec fn xz_fresh(stream: xz2::stream::Stream) -> XzWriter;

/// `xz2::write::XzEncoder::new_stream` over an empty vector, with a stream
/// that was set up before. The stream must be an encoder that has not been
/// run: the writer hands it everything that is written, and does not expect
/// it to refuse.
#[verifier::external_body]
pub(crate) fn xz_encoder(stream: xz2::stream::Stream) -> (w: XzWriter)
    requires
        crate::xz::stream::fresh_encoder(stream),
    ensures
        w == xz_fresh(stream),
{
    XzWriter { inner: xz2::write::XzEncoder::new_stream(Vec::new(), stream) }
}

/// The count of bytes that `write` of `xz2::write::XzEncoder` takes of `buf` for an
/// encoder in the state `w`, or the error with which it fails.
pub uninterp spec fn xz_write_gives(w: XzWriter, buf: Seq<u8>) -> Result<nat, std::io::Error>;

/// The state in which such a call of `write` leaves the encoder.
pub uninterp spec fn xz_write_leaves(w: XzWriter, buf: Seq<u8>) -> XzWriter;

/// `write` of `xz2::write::XzEncoder`, on a writer made by `xz_encoder`:
/// what it returns and how it leaves the encoder depend on the encoder and
/// the buffer alone. It takes at most the whole
/// buffer.
#[verifier::external_body]
pub(crate) fn xz_write(w: &mut XzWriter, buf: &[u8]) -> (r: Result<usize, std::io::Error>)
    ensures
        match r {
            Ok(n) => xz_write_gives(*old(w), buf@) == Ok::<nat, std::io::Error>(n as nat),
            Err(e) => xz_write_gives(*old(w), buf@) == Err::<nat, std::io::Error>(e),
        },
        *final(w) == xz_write_leaves(*old(w), buf@),
        r matches Ok(n) ==> n <= buf@.len(),
{
    std::io::Write::write(&mut w.inner, buf)
}

/// The bytes that `xz2::write::XzEncoder::finish` hands out for an encoder in the state
/// `w`, or the error with which it fails.
pub uninterp spec fn xz_finish_gives(w: XzWriter) -> Result<Seq<u8>, std::io::Error>;

/// `xz2::write::XzEncoder::finish`: completes the stream and
/// hands out the vector. What it hands out depends on the encoder alone.
#[verifier::external_body]
pub(crate) fn xz_finish(w: XzWriter) -> (r: Result<Vec<u8>, std::io::Error>)
    ensures
        match r {
            Ok(out) => xz_finish_gives(w) == Ok::<Seq<u8>, std::io::Error>(out@),
            Err(e) => xz_finish_gives(w) == Err::<Seq<u8>, std::io::Error>(e),
        },
{
    w.inner.finish()
}

} // verus!
