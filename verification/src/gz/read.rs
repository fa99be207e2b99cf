//! Reading a gzip stream.

use crate::gz::crc::{check_trailer, corrupt, trailer_holds, Crc32, GzError};
use crate::gz::header::{parse_header, read_gz_header, Header, HeaderFields};
use crate::gz::stream::{
    error_is_eof, inflater, inflater_over, inflater_peek, inflater_read, inflater_read_gives,
    inflater_read_leaves, inflater_rest, is_eof, rest_from, Inflater,
};
use crate::source::Source;
use vstd::prelude::*;
use vstd::slice::slice_subrange;

verus! {

/// The error that stands for a failure of the deflate decoder: the input
/// ended in the middle of the data, or the data is damaged.
pub open spec fn read_fault(e: std::io::Error) -> GzError {
    if error_is_eof(e) {
        GzError::Incomplete
    } else {
        GzError::Deflate
    }
}

/// Turns a failure of the deflate decoder into the error that stands for
/// it.
pub fn fault(e: &std::io::Error) -> (r: GzError)
    ensures
        r == read_fault(*e),
{
    if is_eof(e) {
        GzError::Incomplete
    } else {
        GzError::Deflate
    }
}

/// A gzip streaming decoder.
///
/// It takes the bytes of one gzip member and hands out the data inside.
pub struct DecoderReaderBuf {
    inner: Inflater,
    crc: Crc32,
    header: Header,
    finished: bool,
}

impl DecoderReaderBuf {
    /// The state of the deflate decoder.
    pub closed spec fn coder(&self) -> Inflater {
        self.inner
    }

    /// What is left of the input.
    pub open spec fn rest(&self) -> Seq<u8> {
        inflater_rest(self.coder())
    }

    /// The data handed out so far.
    pub closed spec fn produced(&self) -> Seq<u8> {
        self.crc.data()
    }

    /// Whether the end of the data was reached and the trailer held good.
    pub closed spec fn finished(&self) -> bool {
        self.finished
    }

    /// The header of the stream, as a mathematical value.
    pub closed spec fn header_fields(&self) -> HeaderFields {
        self.header@
    }

    /// Whether a call of `read` that found the decoder as `self`, left it as
    /// `after`, returned `r` and left `got` in the buffer of `room` bytes did
    /// what is asked of it.
    ///
    /// A decoder that has finished hands back zero and stays as it is.
    /// Otherwise the deflate decoder is asked to fill the buffer. Its
    /// failure ends the call. Bytes that it hands back are the outcome, and
    /// part of the data from then on. Where it hands back none for a buffer
    /// with room, the data is at its end: if what is left of the input then
    /// starts with the trailer of the data, the decoder has finished and
    /// zero comes back; if not, the stream is corrupt.
    pub open spec fn reads(
        self,
        after: Self,
        room: nat,
        r: Result<usize, GzError>,
        got: Seq<u8>,
    ) -> bool {
        if self.finished() {
            r == Ok::<usize, GzError>(0) && after == self
        } else {
            let next = inflater_read_leaves(self.coder(), room);
            &&& after.coder() == next
            &&& after.header_fields() == self.header_fields()
            &&& match inflater_read_gives(self.coder(), room) {
                Err(e) => {
                    &&& r == Err::<usize, GzError>(read_fault(e))
                    &&& !after.finished()
                    &&& after.produced() == self.produced()
                },
                Ok(bytes) => if bytes.len() > 0 {
                    &&& r is Ok
                    &&& r->Ok_0 == bytes.len()
                    &&& got.subrange(0, bytes.len() as int) == bytes
                    &&& !after.finished()
                    &&& after.produced() == self.produced() + bytes
                } else if room == 0 {
                    &&& r == Ok::<usize, GzError>(0)
                    &&& !after.finished()
                    &&& after.produced() == self.produced()
                } else if trailer_holds(inflater_rest(next), self.produced()) {
                    &&& r == Ok::<usize, GzError>(0)
                    &&& after.finished()
                    &&& after.produced() == self.produced()
                } else {
                    &&& r == Err::<usize, GzError>(GzError::Corrupt)
                    &&& !after.finished()
                    &&& after.produced() == self.produced()
                },
            }
        }
    }

    /// Whether `self` is the decoder that is made over the bytes `data` from
    /// the position `pos` on: the header is the one that these bytes start
    /// with, and the deflate decoder stands behind it.
    pub open spec fn opens(self, data: Seq<u8>, pos: nat) -> bool {
        exists|n: int|
            {
                &&& parse_header(rest_from(data, pos)) == Ok::<(HeaderFields, int), GzError>(
                    (self.header_fields(), n),
                )
                &&& 10 <= n <= rest_from(data, pos).len()
                &&& self.coder() == inflater_over(data, (pos + n) as nat)
                &&& self.rest() == rest_from(data, pos).skip(n)
                &&& !self.finished()
                &&& self.produced() == Seq::<u8>::empty()
            }
    }

    /// Creates a new decoder from the given source, immediately parsing the
    /// gzip header.
    ///
    /// The decoder is made exactly where what is left of the source starts
    /// with a header; otherwise the error met in the header comes back.
    pub fn new(r: Source) -> (d: Result<DecoderReaderBuf, GzError>)
        ensures
            match d {
                Ok(dec) => dec.opens(r.data@, r.pos as nat),
                Err(e) => parse_header(r.rest()) == Err::<(HeaderFields, int), GzError>(e),
            },
    {
        let mut src = r;
        match read_gz_header(&mut src) {
            Ok(header) => {
                let ghost rest = src.rest();
                let Source { data, pos } = src;
                let inner = inflater(data, pos);
                assert(inflater_rest(inner) =~= rest);
                Ok(DecoderReaderBuf { inner, crc: Crc32::new(), header, finished: false })
            },
            Err(e) => Err(e),
        }
    }

    /// Returns the header associated with this stream.
    pub fn header(&self) -> (h: &Header)
        ensures
            h@ == self.header_fields(),
    {
        &self.header
    }

    /// Holds the eight bytes that follow the deflate data against the data
    /// that came out. The decoder has finished exactly where they are the
    /// trailer of that data; otherwise the stream is corrupt and the decoder
    /// stays as it is.
    fn finish(&mut self) -> (r: Result<(), GzError>)
        ensures
            old(self).finished() ==> r is Ok && *final(self) == *old(self),
            !old(self).finished() ==> (r is Ok <==> trailer_holds(
                old(self).rest(),
                old(self).produced(),
            )),
            r is Ok ==> final(self).finished(),
            r is Err ==> r == Err::<(), GzError>(GzError::Corrupt) && *final(self) == *old(self),
            final(self).coder() == old(self).coder(),
            final(self).produced() == old(self).produced(),
            final(self).header_fields() == old(self).header_fields(),
    {
        if self.finished {
            return Ok(());
        }
        let rest = inflater_peek(&mut self.inner);
        if rest.len() < 8 {
            return Err(corrupt());
        }
        let trailer = slice_subrange(rest.as_slice(), 0, 8);
        let sum = self.crc.sum();
        let amt = self.crc.amt_as_u32();
        assert(trailer@ =~= rest@.take(8));
        match check_trailer(trailer, sum, amt) {
            Err(e) => Err(e),
            Ok(_) => {
                self.finished = true;
                Ok(())
            },
        }
    }

    /// Reads decompressed bytes into `buf`.
    ///
    /// The count of bytes written to the front of `buf` comes back, and
    /// they are part of the data handed out from then on. Where nothing more
    /// comes out for a buffer with room, the data is at its end: the eight
    /// bytes that follow in the input must then be the trailer that belongs
    /// to all the data handed out, or the stream is corrupt. Once that has
    /// held, every further call hands back zero.
    pub fn read(&mut self, buf: &mut [u8]) -> (r: Result<usize, GzError>)
        ensures
            old(self).reads(*final(self), old(buf)@.len(), r, final(buf)@),
            final(buf)@.len() == old(buf)@.len(),
            final(self).header_fields() == old(self).header_fields(),
            match r {
                Ok(n) => {
                    &&& n <= old(buf)@.len()
                    &&& final(self).produced() == old(self).produced() + final(buf)@.subrange(
                        0,
                        n as int,
                    )
                    &&& (n == 0 && old(buf)@.len() > 0 ==> final(self).finished())
                    &&& (n > 0 ==> final(self).finished() == old(self).finished())
                },
                Err(e) => final(self).finished() == old(self).finished(),
            },
    {
        if self.finished {
            assert(self.produced() + buf@.subrange(0, 0) =~= self.produced());
            return Ok(0);
        }
        match inflater_read(&mut self.inner, buf) {
            Err(e) => Err(fault(&e)),
            Ok(n) => {
                if n == 0 {
                    assert(self.produced() + buf@.subrange(0, 0) =~= self.produced());
                    if buf.len() > 0 {
                        match self.finish() {
                            Ok(_) => Ok(0),
                            Err(e) => Err(e),
                        }
                    } else {
                        Ok(0)
                    }
                } else {
                    self.crc.update(slice_subrange(buf, 0, n));
                    Ok(n)
                }
            },
        }
    }
}

/// A gzip streaming decoder over bytes held in memory.
///
/// It takes the bytes of one gzip member and hands out the data inside.
pub struct DecoderReader {
    inner: DecoderReaderBuf,
}

impl DecoderReader {
    /// What is left of the input.
    pub open spec fn rest(&self) -> Seq<u8> {
        self.buffered().rest()
    }

    /// The data handed out so far.
    pub open spec fn produced(&self) -> Seq<u8> {
        self.buffered().produced()
    }

    /// Whether the end of the data was reached and the trailer held good.
    pub open spec fn finished(&self) -> bool {
        self.buffered().finished()
    }

    /// The header of the stream, as a mathematical value.
    pub open spec fn header_fields(&self) -> HeaderFields {
        self.buffered().header_fields()
    }

    /// The decoder over the source that does the work.
    pub closed spec fn buffered(&self) -> DecoderReaderBuf {
        self.inner
    }

    /// Creates a new decoder from the given bytes, immediately parsing the
    /// gzip header.
    ///
    /// The decoder is made exactly where the bytes start with a header;
    /// otherwise the error met in the header comes back.
    pub fn new(r: Vec<u8>) -> (d: Result<DecoderReader, GzError>)
        ensures
            match d {
                Ok(dec) => dec.buffered().opens(r@, 0),
                Err(e) => parse_header(r@) == Err::<(HeaderFields, int), GzError>(e),
            },
    {
        match DecoderReaderBuf::new(Source::new(r)) {
            Ok(inner) => Ok(DecoderReader { inner }),
            Err(e) => Err(e),
        }
    }

    /// Returns the header associated with this stream.
    pub fn header(&self) -> (h: &Header)
        ensures
            h@ == self.header_fields(),
    {
        self.inner.header()
    }

    /// Reads decompressed bytes into `buf`; see [`DecoderReaderBuf::read`].
    pub fn read(&mut self, buf: &mut [u8]) -> (r: Result<usize, GzError>)
        ensures
            old(self).buffered().reads(final(self).buffered(), old(buf)@.len(), r, final(buf)@),
            final(buf)@.len() == old(buf)@.len(),
            final(self).header_fields() == old(self).header_fields(),
            match r {
                Ok(n) => {
                    &&& n <= old(buf)@.len()
                    &&& final(self).produced() == old(self).produced() + final(buf)@.subrange(
                        0,
                        n as int,
                    )
                    &&& (n == 0 && old(buf)@.len() > 0 ==> final(self).finished())
                    &&& (n > 0 ==> final(self).finished() == old(self).finished())
                },
                Err(e) => final(self).finished() == old(self).finished(),
            },
    {
        self.inner.read(buf)
    }
}

} // verus!
