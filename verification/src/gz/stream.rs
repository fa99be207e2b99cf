//! The deflate streams of the `flate2` crate.
//!
//! The deflate data inside a gzip stream is made and read by `flate2`: by
//! its `write::DeflateEncoder` over a byte vector that starts empty, and by
//! its `bufread::DeflateEncoder` and `bufread::DeflateDecoder` over a cursor
//! on a byte vector. The first asks of its parameter that it be a writer,
//! so it is held in a handle whose inside is not looked into; the other two
//! are used as they are.
//!
//! The bytes are not worked out here. What a call comes to has a name: what
//! it gives, and the state in which it leaves the stream. These depend on
//! the state before and on what the call is given, and on nothing else.
//! Beyond the names, what is taken on trust is what `std::io` asks of any
//! writer and reader, what a cursor is, and that a stream which reads from
//! a cursor leaves the bytes under it alone and only ever moves it forward.

use std::io::Cursor;
use vstd::prelude::*;

verus! {

/// A `flate2::write::DeflateEncoder` that fills a byte vector.
#[verifier::external_body]
pub struct Deflater {
    inner: flate2::write::DeflateEncoder<Vec<u8>>,
}

#[verifier::external_type_specification]
#[verifier::external_body]
#[verifier::reject_recursive_types(R)]
pub struct ExDeflateEncoder<R>(flate2::bufread::DeflateEncoder<R>);

#[verifier::external_type_specification]
#[verifier::external_body]
#[verifier::reject_recursive_types(R)]
pub struct ExDeflateDecoder<R>(flate2::bufread::DeflateDecoder<R>);

/// A `flate2::bufread::DeflateEncoder` that drains a byte vector.
pub type Squeezer = flate2::bufread::DeflateEncoder<Cursor<Vec<u8>>>;

/// A `flate2::bufread::DeflateDecoder` that drains a byte vector.
pub type Inflater = flate2::bufread::DeflateDecoder<Cursor<Vec<u8>>>;

/// The bytes of `data` from the position `pos` on; none where the position
/// lies behind the end.
pub open spec fn rest_from(data: Seq<u8>, pos: nat) -> Seq<u8> {
    if pos <= data.len() {
        data.subrange(pos as int, data.len() as int)
    } else {
        Seq::empty()
    }
}

/// Whether an I/O error is of the kind `std::io::ErrorKind::UnexpectedEof`.
pub uninterp spec fn error_is_eof(e: std::io::Error) -> bool;

/// `std::io::Error::kind`, compared with `ErrorKind::UnexpectedEof`.
#[verifier::external_body]
pub(crate) fn is_eof(e: &std::io::Error) -> (r: bool)
    ensures
        r == error_is_eof(*e),
{
    e.kind() == std::io::ErrorKind::UnexpectedEof
}

/// The encoder that `flate2::write::DeflateEncoder::new` makes over an
/// empty vector at the level `level`.
pub uninterp spec fn deflater_made(level: u32) -> Deflater;

/// `flate2::write::DeflateEncoder::new` over an empty vector, the level
/// going through `flate2::Compression::new`. The level may not exceed 9.
#[verifier::external_body]
pub(crate) fn deflater(level: u32) -> (w: Deflater)
    requires
        level <= 9,
    ensures
        w == deflater_made(level),
{
    Deflater {
        inner: flate2::write::DeflateEncoder::new(Vec::new(), flate2::Compression::new(level)),
    }
}

/// The count of bytes that `write` of `flate2::write::DeflateEncoder` takes
/// of `buf` for an encoder in the state `w`, or the error with which it
/// fails.
pub uninterp spec fn deflater_write_gives(w: Deflater, buf: Seq<u8>) -> Result<nat, std::io::Error>;

/// The state in which such a call of `write` leaves the encoder.
pub uninterp spec fn deflater_write_leaves(w: Deflater, buf: Seq<u8>) -> Deflater;

/// `write` of `flate2::write::DeflateEncoder`: what it returns and how it
/// leaves the encoder depend on the encoder and the buffer alone. It takes
/// at most the whole buffer.
#[verifier::external_body]
pub(crate) fn deflater_write(w: &mut Deflater, buf: &[u8]) -> (r: Result<usize, std::io::Error>)
    ensures
        match r {
            Ok(n) => deflater_write_gives(*old(w), buf@) == Ok::<nat, std::io::Error>(n as nat),
            Err(e) => deflater_write_gives(*old(w), buf@) == Err::<nat, std::io::Error>(e),
        },
        *final(w) == deflater_write_leaves(*old(w), buf@),
        r matches Ok(n) ==> n <= buf@.len(),
{
    std::io::Write::write(&mut w.inner, buf)
}

/// The error with which `flush` of `flate2::write::DeflateEncoder` fails
/// for an encoder in the state `w`, or `None` where it succeeds.
pub uninterp spec fn deflater_flush_gives(w: Deflater) -> Option<std::io::Error>;

/// The state in which a call of `flush` leaves the encoder.
pub uninterp spec fn deflater_flush_leaves(w: Deflater) -> Deflater;

/// `flush` of `flate2::write::DeflateEncoder`: whether it succeeds and how
/// it leaves the encoder depend on the encoder alone.
#[verifier::external_body]
pub(crate) fn deflater_flush(w: &mut Deflater) -> (r: Result<(), std::io::Error>)
    ensures
        match r {
            Ok(_) => deflater_flush_gives(*old(w)) is None,
            Err(e) => deflater_flush_gives(*old(w)) == Some(e),
        },
        *final(w) == deflater_flush_leaves(*old(w)),
{
    std::io::Write::flush(&mut w.inner)
}

/// The bytes that `flate2::write::DeflateEncoder::finish` hands out for an
/// encoder in the state `w`, or the error with which it fails.
pub uninterp spec fn deflater_finish_gives(w: Deflater) -> Result<Seq<u8>, std::io::Error>;

/// `flate2::write::DeflateEncoder::finish`: completes the deflate stream and
/// hands out the vector. What it hands out depends on the encoder alone.
#[verifier::external_body]
pub(crate) fn deflater_finish(w: Deflater) -> (r: Result<Vec<u8>, std::io::Error>)
    ensures
        match r {
            Ok(out) => deflater_finish_gives(w) == Ok::<Seq<u8>, std::io::Error>(out@),
            Err(e) => deflater_finish_gives(w) == Err::<Seq<u8>, std::io::Error>(e),
        },
{
    w.inner.finish()
}

/// The decoder that `flate2::bufread::DeflateDecoder::new` makes over a
/// cursor on the bytes `data` that stands at the position `pos`.
pub uninterp spec fn inflater_over(data: Seq<u8>, pos: nat) -> Inflater;

/// The bytes that the cursor of a decoder has still to give.
pub uninterp spec fn inflater_rest(d: Inflater) -> Seq<u8>;

/// `flate2::bufread::DeflateDecoder::new` over a cursor on `data` that was
/// put at the position `pos` with `Cursor::set_position`. The cursor has
/// the bytes from that position on still to give.
#[verifier::external_body]
pub(crate) fn inflater(data: Vec<u8>, pos: usize) -> (d: Inflater)
    ensures
        d == inflater_over(data@, pos as nat),
        inflater_rest(d) == rest_from(data@, pos as nat),
{
    let mut cursor = Cursor::new(data);
    cursor.set_position(pos as u64);
    flate2::bufread::DeflateDecoder::new(cursor)
}

/// The bytes that `read` of `flate2::bufread::DeflateDecoder` gives for a
/// decoder in the state `d` and a buffer with room for `room` bytes, or the
/// error with which it fails.
pub uninterp spec fn inflater_read_gives(d: Inflater, room: nat) -> Result<Seq<u8>, std::io::Error>;

/// The state in which such a call of `read` leaves the decoder.
pub uninterp spec fn inflater_read_leaves(d: Inflater, room: nat) -> Inflater;

/// `read` of `flate2::bufread::DeflateDecoder`: what it gives and how it
/// leaves the decoder depend on the decoder and the room in the buffer
/// alone. It gives at most as many bytes as the buffer holds, at its front,
/// and leaves its length alone. It takes its input from the cursor and
/// never hands any back, so the cursor has no more to give than before.
#[verifier::external_body]
pub(crate) fn inflater_read(d: &mut Inflater, buf: &mut [u8]) -> (r: Result<usize, std::io::Error>)
    ensures
        match r {
            Ok(n) => inflater_read_gives(*old(d), old(buf)@.len()) == Ok::<
                Seq<u8>,
                std::io::Error,
            >(final(buf)@.subrange(0, n as int)),
            Err(e) => inflater_read_gives(*old(d), old(buf)@.len()) == Err::<
                Seq<u8>,
                std::io::Error,
            >(e),
        },
        *final(d) == inflater_read_leaves(*old(d), old(buf)@.len()),
        final(buf)@.len() == old(buf)@.len(),
        r matches Ok(n) ==> n <= old(buf)@.len(),
        inflater_rest(*final(d)).len() <= inflater_rest(*old(d)).len(),
{
    std::io::Read::read(d, buf)
}

/// `fill_buf` of the cursor that `flate2::bufread::DeflateDecoder::get_mut`
/// gives: a copy of the bytes that the cursor has still to give. Nothing is
/// taken, so the decoder stays as it is.
#[verifier::external_body]
pub(crate) fn inflater_peek(d: &mut Inflater) -> (r: Vec<u8>)
    ensures
        r@ == inflater_rest(*old(d)),
        *final(d) == *old(d),
{
    match std::io::BufRead::fill_buf(d.get_mut()) {
        Ok(rest) => rest.to_vec(),
        Err(_) => Vec::new(),
    }
}

/// The encoder that `flate2::bufread::DeflateEncoder::new` makes at the
/// level `level` over a cursor on the bytes `data` that stands at the
/// position `pos`.
pub uninterp spec fn squeezer_over(data: Seq<u8>, pos: nat, level: u32) -> Squeezer;

/// The bytes that the cursor of an encoder runs over.
pub uninterp spec fn squeezer_data(d: Squeezer) -> Seq<u8>;

/// The position at which the cursor of an encoder stands.
pub uninterp spec fn squeezer_at(d: Squeezer) -> nat;

/// `flate2::bufread::DeflateEncoder::new` over a cursor on `data` that was
/// put at the position `pos` with `Cursor::set_position`, the level going
/// through `flate2::Compression::new`. The level may not exceed 9.
#[verifier::external_body]
pub(crate) fn squeezer(data: Vec<u8>, pos: usize, level: u32) -> (d: Squeezer)
    requires
        level <= 9,
    ensures
        d == squeezer_over(data@, pos as nat, level),
        squeezer_data(d) == data@,
        squeezer_at(d) == pos as nat,
{
    let mut cursor = Cursor::new(data);
    cursor.set_position(pos as u64);
    flate2::bufread::DeflateEncoder::new(cursor, flate2::Compression::new(level))
}

/// The bytes that `read` of `flate2::bufread::DeflateEncoder` gives for an
/// encoder in the state `d` and a buffer with room for `room` bytes, or the
/// error with which it fails.
pub uninterp spec fn squeezer_read_gives(d: Squeezer, room: nat) -> Result<Seq<u8>, std::io::Error>;

/// The state in which such a call of `read` leaves the encoder.
pub uninterp spec fn squeezer_read_leaves(d: Squeezer, room: nat) -> Squeezer;

/// `read` of `flate2::bufread::DeflateEncoder`: what it gives and how it
/// leaves the encoder depend on the encoder and the room in the buffer
/// alone. It gives at most as many bytes as the buffer holds, at its front,
/// and leaves its length alone. The bytes under the cursor stay as they
/// are, and the cursor does not move back.
#[verifier::external_body]
pub(crate) fn squeezer_read(d: &mut Squeezer, buf: &mut [u8]) -> (r: Result<usize, std::io::Error>)
    ensures
        match r {
            Ok(n) => squeezer_read_gives(*old(d), old(buf)@.len()) == Ok::<
                Seq<u8>,
                std::io::Error,
            >(final(buf)@.subrange(0, n as int)),
            Err(e) => squeezer_read_gives(*old(d), old(buf)@.len()) == Err::<
                Seq<u8>,
                std::io::Error,
            >(e),
        },
        *final(d) == squeezer_read_leaves(*old(d), old(buf)@.len()),
        final(buf)@.len() == old(buf)@.len(),
        r matches Ok(n) ==> n <= old(buf)@.len(),
        squeezer_data(*final(d)) == squeezer_data(*old(d)),
        squeezer_at(*final(d)) >= squeezer_at(*old(d)),
{
    std::io::Read::read(d, buf)
}

/// `Cursor::position` of the cursor that
/// `flate2::bufread::DeflateEncoder::get_ref` gives.
#[verifier::external_body]
pub(crate) fn squeezer_position(d: &Squeezer) -> (r: u64)
    ensures
        r == squeezer_at(*d),
{
    d.get_ref().position()
}

/// `Cursor::get_ref` of the cursor that
/// `flate2::bufread::DeflateEncoder::get_ref` gives: the bytes that the
/// cursor runs over.
#[verifier::external_body]
pub(crate) fn squeezer_input(d: &Squeezer) -> (r: &[u8])
    ensures
        r@ == squeezer_data(*d),
{
    d.get_ref().get_ref().as_slice()
}

/// `flate2::bufread::DeflateEncoder::into_inner`, and of the cursor that it
/// gives `Cursor::position` and `Cursor::into_inner`: the bytes that the
/// cursor ran over and the position at which it stood.
#[verifier::external_body]
pub(crate) fn squeezer_parts(d: Squeezer) -> (r: (Vec<u8>, u64))
    ensures
        r.0@ == squeezer_data(d),
        r.1 == squeezer_at(d),
{
    let cursor = d.into_inner();
    let pos = cursor.position();
    (cursor.into_inner(), pos)
}

} // verus!
