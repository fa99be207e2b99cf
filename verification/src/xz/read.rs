//! xz streams over bytes held in memory.

use crate::source::Source;
use crate::xz::bufread::{reads, XzDecoder as BufDecoder, XzEncoder as BufEncoder, XzError};
use crate::xz::stream::{consumed_by, easy_encoder_gives, produced_by, stream_decoder_gives};
use vstd::prelude::*;
use xz2::stream::{Action, Check, Error, Stream};

verus! {

/// A compression stream which wraps uncompressed data. Compressed data will
/// be read from the stream.
pub struct XzEncoder {
    inner: BufEncoder,
}

/// A decompression stream which wraps compressed data. Decompressed data
/// will be read from the stream.
pub struct XzDecoder {
    inner: BufDecoder,
}

impl XzEncoder {
    /// The input and how far it has been read.
    pub closed spec fn source(&self) -> Source {
        self.inner.source()
    }

    /// The state of the coder.
    pub closed spec fn stream(&self) -> Stream {
        self.inner.stream()
    }

    /// Create a new compression stream which will compress the bytes of
    /// `r` at the given level.
    ///
    /// The `level` argument here is typically 0-9 with 6 being a good
    /// default. Where the coder refuses the level, its error comes back.
    pub fn new(r: Vec<u8>, level: u32) -> (e: Result<XzEncoder, XzError>)
        ensures
            e is Ok <==> easy_encoder_gives(level, Check::Crc64) is Ok,
            e matches Ok(enc) ==> easy_encoder_gives(level, Check::Crc64) == Ok::<Stream, Error>(
                enc.stream(),
            ),
            e matches Err(x) ==> x == XzError::of(easy_encoder_gives(level, Check::Crc64)->Err_0),
            e matches Ok(enc) ==> enc.source().data == r && enc.source().pos == 0 && consumed_by(
                enc.stream(),
            ) == 0 && produced_by(enc.stream()) == 0,
    {
        match BufEncoder::new(Source::new(r), level) {
            Ok(inner) => Ok(XzEncoder { inner }),
            Err(e) => Err(e),
        }
    }

    /// Creates a new encoder with a custom `Stream`.
    pub fn new_stream(r: Vec<u8>, stream: Stream) -> (e: XzEncoder)
        ensures
            e.source().data == r,
            e.source().pos == 0,
            e.stream() == stream,
    {
        XzEncoder { inner: BufEncoder::new_stream(Source::new(r), stream) }
    }

    /// Acquires a reference to the underlying input.
    pub fn get_ref(&self) -> (r: &Vec<u8>)
        ensures
            *r == self.source().data,
    {
        self.inner.get_ref().get_ref()
    }

    /// Acquires a mutable reference to the underlying input.
    ///
    /// Note that mutation of the input may result in surprising results if
    /// this encoder is continued to be used.
    pub fn get_mut(&mut self) -> (r: &mut Vec<u8>)
        ensures
            *r == old(self).source().data,
            final(self).source().data == *final(r),
            final(self).source().pos == old(self).source().pos,
            final(self).stream() == old(self).stream(),
    {
        self.inner.get_mut().get_mut()
    }

    /// Unwrap the underlying input, ending the compression stream.
    pub fn into_inner(self) -> (r: Vec<u8>)
        ensures
            r == self.source().data,
    {
        self.inner.into_inner().into_inner()
    }

    /// Returns the number of bytes produced by the compressor (e.g. the
    /// number of bytes read from this stream).
    pub fn total_out(&self) -> (r: u64)
        ensures
            r == produced_by(self.stream()),
    {
        self.inner.total_out()
    }

    /// Returns the number of bytes consumed by the compressor (e.g. the
    /// number of bytes read from the underlying input).
    pub fn total_in(&self) -> (r: u64)
        ensures
            r == consumed_by(self.stream()),
    {
        self.inner.total_in()
    }

    /// Reads compressed bytes into `buf`; see [`bufread::XzEncoder::read`].
    pub fn read(&mut self, buf: &mut [u8]) -> (r: Result<usize, XzError>)
        ensures
            reads(
                (old(self).source(), old(self).stream()),
                (final(self).source(), final(self).stream()),
                old(buf)@.len(),
                Action::Finish,
                r,
                final(buf)@,
            ),
            final(buf)@.len() == old(buf)@.len(),
            final(self).source().data == old(self).source().data,
            old(self).source().pos <= final(self).source().pos,
            consumed_by(old(self).stream()) <= consumed_by(final(self).stream()),
            produced_by(old(self).stream()) <= produced_by(final(self).stream()),
            r matches Ok(n) ==> {
                &&& n <= old(buf)@.len()
                &&& produced_by(final(self).stream()) == produced_by(old(self).stream()) + n
                &&& consumed_by(final(self).stream()) - consumed_by(old(self).stream())
                    == final(self).source().pos - old(self).source().pos
                &&& (n == 0 && old(buf)@.len() > 0 ==> final(self).source().rest().len() == 0)
            },
    {
        self.inner.read(buf)
    }
}

impl XzDecoder {
    /// The input and how far it has been read.
    pub closed spec fn source(&self) -> Source {
        self.inner.source()
    }

    /// The state of the coder.
    pub closed spec fn stream(&self) -> Stream {
        self.inner.stream()
    }

    /// Create a new decompression stream, which will read compressed data
    /// from `r` and decompress it. Where the coder cannot be set up, its
    /// error comes back.
    pub fn new(r: Vec<u8>) -> (d: Result<XzDecoder, XzError>)
        ensures
            d is Ok <==> stream_decoder_gives(u64::MAX, 0) is Ok,
            d matches Ok(dec) ==> stream_decoder_gives(u64::MAX, 0) == Ok::<Stream, Error>(
                dec.stream(),
            ),
            d matches Err(x) ==> x == XzError::of(stream_decoder_gives(u64::MAX, 0)->Err_0),
            d matches Ok(dec) ==> dec.source().data == r && dec.source().pos == 0 && consumed_by(
                dec.stream(),
            ) == 0 && produced_by(dec.stream()) == 0,
    {
        match BufDecoder::new(Source::new(r)) {
            Ok(inner) => Ok(XzDecoder { inner }),
            Err(e) => Err(e),
        }
    }

    /// Creates a new decoder with a custom `Stream`.
    pub fn new_stream(r: Vec<u8>, stream: Stream) -> (d: XzDecoder)
        ensures
            d.source().data == r,
            d.source().pos == 0,
            d.stream() == stream,
    {
        XzDecoder { inner: BufDecoder::new_stream(Source::new(r), stream) }
    }

    /// Acquires a reference to the underlying input.
    pub fn get_ref(&self) -> (r: &Vec<u8>)
        ensures
            *r == self.source().data,
    {
        self.inner.get_ref().get_ref()
    }

    /// Acquires a mutable reference to the underlying input.
    ///
    /// Note that mutation of the input may result in surprising results if
    /// this decoder is continued to be used.
    pub fn get_mut(&mut self) -> (r: &mut Vec<u8>)
        ensures
            *r == old(self).source().data,
            final(self).source().data == *final(r),
            final(self).source().pos == old(self).source().pos,
            final(self).stream() == old(self).stream(),
    {
        self.inner.get_mut().get_mut()
    }

    /// Unwrap the underlying input, ending the decompression stream.
    pub fn into_inner(self) -> (r: Vec<u8>)
        ensures
            r == self.source().data,
    {
        self.inner.into_inner().into_inner()
    }

    /// Returns the number of bytes produced by the decompressor (e.g. the
    /// number of bytes read from this stream).
    pub fn total_out(&self) -> (r: u64)
        ensures
            r == produced_by(self.stream()),
    {
        self.inner.total_out()
    }

    /// Returns the number of bytes consumed by the decompressor (e.g. the
    /// number of bytes read from the underlying input).
    pub fn total_in(&self) -> (r: u64)
        ensures
            r == consumed_by(self.stream()),
    {
        self.inner.total_in()
    }

    /// Reads decompressed bytes into `buf`; see [`bufread::XzDecoder::read`].
    pub fn read(&mut self, buf: &mut [u8]) -> (r: Result<usize, XzError>)
        ensures
            reads(
                (old(self).source(), old(self).stream()),
                (final(self).source(), final(self).stream()),
                old(buf)@.len(),
                Action::Run,
                r,
                final(buf)@,
            ),
            final(buf)@.len() == old(buf)@.len(),
            final(self).source().data == old(self).source().data,
            old(self).source().pos <= final(self).source().pos,
            consumed_by(old(self).stream()) <= consumed_by(final(self).stream()),
            produced_by(old(self).stream()) <= produced_by(final(self).stream()),
            r matches Ok(n) ==> {
                &&& n <= old(buf)@.len()
                &&& produced_by(final(self).stream()) == produced_by(old(self).stream()) + n
                &&& consumed_by(final(self).stream()) - consumed_by(old(self).stream())
                    == final(self).source().pos - old(self).source().pos
                &&& (n == 0 && old(buf)@.len() > 0 ==> final(self).source().rest().len() == 0)
            },
    {
        self.inner.read(buf)
    }
}

} // verus!
