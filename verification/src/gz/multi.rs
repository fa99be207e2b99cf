//! Reading a gzip stream of several members.

use crate::gz::crc::{check_trailer, corrupt, trailer_holds, trailer_of, Crc32, GzError};
use crate::gz::header::{parse, parse_header, read_gz_header, Header, HeaderFields};
use crate::gz::read::{fault, read_fault};
use crate::gz::stream::{
    inflater, inflater_over, inflater_peek, inflater_read, inflater_read_gives,
    inflater_read_leaves, inflater_rest, rest_from, Inflater,
};
use crate::source::Source;
use vstd::prelude::*;
use vstd::slice::slice_subrange;

verus! {

/// A gzip streaming decoder that decodes all members of a multistream.
///
/// It takes the bytes of one or more gzip members, one behind the other,
/// and hands out the data inside, member after member.
pub struct MultiDecoderReaderBuf {
    inner: Inflater,
    crc: Crc32,
    header: Header,
    finished: bool,
    total: Ghost<Seq<u8>>,
}

impl MultiDecoderReaderBuf {
    /// The state of the deflate decoder.
    pub closed spec fn coder(&self) -> Inflater {
        self.inner
    }

    /// What is left of the input.
    pub open spec fn rest(&self) -> Seq<u8> {
        inflater_rest(self.coder())
    }

    /// The data handed out so far, of all members.
    pub closed spec fn produced(&self) -> Seq<u8> {
        self.total@
    }

    /// The data handed out so far of the member that is being read.
    pub closed spec fn member(&self) -> Seq<u8> {
        self.crc.data()
    }

    /// Whether the end of the last member was reached and its trailer held
    /// good.
    pub closed spec fn finished(&self) -> bool {
        self.finished
    }

    /// The header of the member that is being read, as a mathematical
    /// value.
    pub closed spec fn header_fields(&self) -> HeaderFields {
        self.header@
    }

    /// Whether a call of `read` that found the decoder as `self`, not
    /// finished, and a buffer with room for `room` bytes, left it as `after`,
    /// returned `r` and left `got` in the buffer, did what `members_read`
    /// says.
    pub open spec fn reads(
        self,
        after: Self,
        room: nat,
        r: Result<usize, GzError>,
        got: Seq<u8>,
    ) -> bool {
        let m = members_read(self.coder(), self.member(), self.header_fields(), room);
        &&& r == m.result
        &&& after.coder() == m.coder
        &&& after.finished() == m.finished
        &&& after.member() == m.member
        &&& after.header_fields() == m.header
        &&& after.produced() == self.produced() + m.bytes
        &&& (r matches Ok(n) ==> got.subrange(0, n as int) == m.bytes)
    }

    /// Whether all that is left of the input is the trailer that belongs to
    /// the data of the member that was read last.
    pub open spec fn checked(&self) -> bool {
        self.rest() == trailer_of(self.member())
    }

    /// Whether `self` is the decoder that is made over the bytes `data` from
    /// the position `pos` on: the header is the one that these bytes start
    /// with, and the deflate decoder stands behind it.
    pub open spec fn opens(self, data: Seq<u8>, pos: nat) -> bool {
        exists|n: int|
            {
                &&& parse_header(rest_from(data, pos)) == Ok::<(HeaderFields, int), GzError>(
                    (self.header_fields(), n),
                )
                &&& 10 <= n <= rest_from(data, pos).len()
                &&& self.coder() == inflater_over(data, (pos + n) as nat)
                &&& self.rest() == rest_from(data, pos).skip(n)
                &&& !self.finished()
                &&& self.produced() == Seq::<u8>::empty()
                &&& self.member() == Seq::<u8>::empty()
            }
    }

    /// Creates a new decoder from the given source, immediately parsing
    /// the gzip header. If the gzip stream contains multiple members all
    /// will be decoded.
    ///
    /// The decoder is made exactly where what is left of the source starts
    /// with a header; otherwise the error met in the header comes back.
    pub fn new(r: Source) -> (d: Result<MultiDecoderReaderBuf, GzError>)
        ensures
            match d {
                Ok(dec) => dec.opens(r.data@, r.pos as nat),
                Err(e) => parse_header(r.rest()) == Err::<(HeaderFields, int), GzError>(e),
            },
    {
        let mut src = r;
        match read_gz_header(&mut src) {
            Ok(header) => {
                let ghost rest = src.rest();
                let Source { data, pos } = src;
                let inner = inflater(data, pos);
                assert(inflater_rest(inner) =~= rest);
                Ok(
                    MultiDecoderReaderBuf {
                        inner,
                        crc: Crc32::new(),
                        header,
                        finished: false,
                        total: Ghost(Seq::empty()),
                    },
                )
            },
            Err(e) => Err(e),
        }
    }

    /// Returns the current header associated with this stream.
    pub fn header(&self) -> (h: &Header)
        ensures
            h@ == self.header_fields(),
    {
        &self.header
    }

    /// What ending a member makes of a decoder that has not finished, and
    /// what comes back.
    ///
    /// Where the member cannot be ended, the error comes back and the
    /// decoder stays as it is. Where the input ends with the member, zero
    /// comes back and the decoder has finished. Otherwise the number of
    /// bytes that were left behind the trailer comes back, and a deflate
    /// decoder made afresh stands behind the header of the next member, of
    /// which nothing has been handed out yet.
    pub open spec fn ends_member(self, after: Self, r: Result<usize, GzError>) -> bool {
        match member_end(self.rest(), self.member()) {
            Err(e) => r == Err::<usize, GzError>(e) && after == self,
            Ok(None) => {
                &&& r == Ok::<usize, GzError>(0)
                &&& after.finished()
                &&& after.checked()
                &&& after.member() == self.member()
                &&& after.header_fields() == self.header_fields()
                &&& after.coder() == self.coder()
            },
            Ok(Some((h, n))) => {
                &&& r == Ok::<usize, GzError>((self.rest().len() - 8) as usize)
                &&& !after.finished()
                &&& after.coder() == inflater_over(self.rest(), (8 + n) as nat)
                &&& after.header_fields() == h
                &&& after.member() == Seq::<u8>::empty()
                &&& 10 <= n <= self.rest().len() - 8
                &&& after.rest() == self.rest().skip(8 + n)
            },
        }
    }

    /// Ends a member: holds the eight bytes that follow its deflate data
    /// against the data that came out, and where more bytes follow, reads
    /// the header of the next member and starts afresh.
    ///
    /// Zero comes back where the input is used up, and otherwise the number
    /// of bytes that were left behind the trailer.
    fn finish_member(&mut self) -> (r: Result<usize, GzError>)
        ensures
            final(self).produced() == old(self).produced(),
            old(self).finished() ==> r == Ok::<usize, GzError>(0) && *final(self) == *old(self),
            !old(self).finished() ==> old(self).ends_member(*final(self), r),
            match r {
                Ok(n) => if n == 0 {
                    final(self).finished()
                } else {
                    !final(self).finished() && final(self).member() == Seq::<u8>::empty()
                        && final(self).rest().len() < old(self).rest().len()
                },
                Err(_) => *final(self) == *old(self),
            },
    {
        if self.finished {
            return Ok(0);
        }
        let rest = inflater_peek(&mut self.inner);
        if rest.len() < 8 {
            return Err(corrupt());
        }
        let trailer = slice_subrange(rest.as_slice(), 0, 8);
        let sum = self.crc.sum();
        let amt = self.crc.amt_as_u32();
        assert(trailer@ =~= rest@.take(8));
        match check_trailer(trailer, sum, amt) {
            Err(e) => {
                return Err(e);
            },
            Ok(_) => {},
        }
        let remaining = rest.len() - 8;
        if remaining == 0 {
            self.finished = true;
            assert(rest@ =~= rest@.take(8));
            return Ok(0);
        }
        let behind = slice_subrange(rest.as_slice(), 8, rest.len());
        assert(behind@ =~= rest@.skip(8));
        match parse(behind) {
            Err(e) => Err(e),
            Ok((next_header, n)) => {
                self.header = next_header;
                self.crc.reset();
                let ghost before = rest@;
                self.inner = inflater(rest, 8 + n);
                assert(inflater_rest(self.inner) =~= before.skip(8 + n));
                Ok(remaining)
            },
        }
    }

    /// Reads decompressed bytes into `buf`.
    ///
    /// The count of bytes written to the front of `buf` comes back, and
    /// they are part of the data handed out from then on. Where a member is
    /// at its end, its trailer must belong to the data that came out of it,
    /// or the stream is corrupt; reading goes on with the next member, if
    /// there is one. Zero for a buffer with room means that the last member
    /// is at its end and the input used up. A decoder that has finished, and
    /// a buffer without room, always get zero, and nothing changes.
    pub fn read(&mut self, into: &mut [u8]) -> (r: Result<usize, GzError>)
        ensures
            final(into)@.len() == old(into)@.len(),
            old(self).finished() || old(into)@.len() == 0 ==> r == Ok::<usize, GzError>(0)
                && *final(self) == *old(self) && final(into)@ == old(into)@,
            !old(self).finished() && old(into)@.len() > 0 ==> old(self).reads(
                *final(self),
                old(into)@.len(),
                r,
                final(into)@,
            ),
            match r {
                Ok(n) => {
                    &&& n <= old(into)@.len()
                    &&& final(self).produced() == old(self).produced() + final(into)@.subrange(
                        0,
                        n as int,
                    )
                    &&& (n == 0 && old(into)@.len() > 0 ==> final(self).finished())
                    &&& (final(self).finished() && !old(self).finished() ==> final(self).checked())
                },
                Err(_) => final(self).produced() == old(self).produced(),
            },
    {
        if self.finished || into.len() == 0 {
            assert(self.produced() + into@.subrange(0, 0) =~= self.produced());
            return Ok(0);
        }
        let ghost room = into@.len();
        let ghost whole = members_read(self.coder(), self.member(), self.header_fields(), room);
        assert(self.produced() + Seq::<u8>::empty() =~= self.produced());
        loop
            invariant
                !self.finished,
                !old(self).finished(),
                into@.len() == old(into)@.len(),
                into@.len() > 0,
                room == into@.len(),
                self.produced() == old(self).produced(),
                whole == members_read(
                    old(self).coder(),
                    old(self).member(),
                    old(self).header_fields(),
                    room,
                ),
                whole == members_read(self.coder(), self.member(), self.header_fields(), room),
            decreases inflater_rest(self.inner).len(),
        {
            let ghost before = self.inner;
            match inflater_read(&mut self.inner, into) {
                Err(e) => {
                    return Err(fault(&e));
                },
                Ok(n) => {
                    if n > 0 {
                        self.crc.update(slice_subrange(into, 0, n));
                        proof {
                            self.total@ = self.total@ + into@.subrange(0, n as int);
                        }
                        return Ok(n);
                    }
                },
            }
            assert(into@.subrange(0, 0) =~= Seq::<u8>::empty());
            assert(inflater_rest(self.inner).len() <= inflater_rest(before).len());
            match self.finish_member() {
                Err(e) => {
                    return Err(e);
                },
                Ok(more) => {
                    if more == 0 {
                        return Ok(0);
                    }
                },
            }
        }
    }
}

/// What comes of one call of `read` on a stream of several members.
pub struct MembersRead {
    /// The count of bytes handed back, or the error.
    pub result: Result<usize, GzError>,
    /// The state in which the deflate decoder is left.
    pub coder: Inflater,
    /// The data handed out so far of the member that is then being read.
    pub member: Seq<u8>,
    /// The header of that member.
    pub header: HeaderFields,
    /// Whether the last member is at its end.
    pub finished: bool,
    /// The bytes handed back.
    pub bytes: Seq<u8>,
}

/// What comes of one call of `read` with room for `room` bytes, for a
/// deflate decoder in the state `coder`, with `member` handed out of the
/// member that is being read, and `header` its header.
///
/// The deflate decoder is asked to fill the buffer. Its failure ends the
/// call, and bytes that it hands back are the outcome. Where it hands back
/// none, the member is at its end, and `member_end` says how: with an error;
/// with the end of the stream, for which zero is handed back; or with the
/// header of another member, which is then read from in the same call, by a
/// deflate decoder made afresh over what was left, behind trailer and
/// header. That decoder has less input left than the one before, since a
/// decoder never hands input back; the definition rests on this, and has an
/// error for a decoder of which it would not hold.
pub open spec fn members_read(
    coder: Inflater,
    member: Seq<u8>,
    header: HeaderFields,
    room: nat,
) -> MembersRead
    decreases inflater_rest(coder).len(),
{
    let next = inflater_read_leaves(coder, room);
    let still = MembersRead {
        result: Ok(0),
        coder: next,
        member,
        header,
        finished: false,
        bytes: Seq::empty(),
    };
    match inflater_read_gives(coder, room) {
        Err(e) => MembersRead { result: Err(read_fault(e)), ..still },
        Ok(bytes) => if bytes.len() > 0 {
            MembersRead { result: Ok(bytes.len() as usize), member: member + bytes, bytes, ..still }
        } else {
            let behind = inflater_rest(next);
            match member_end(behind, member) {
                Err(e) => MembersRead { result: Err(e), ..still },
                Ok(None) => MembersRead { finished: true, ..still },
                Ok(Some((h, k))) => {
                    let fresh = inflater_over(behind, (8 + k) as nat);
                    if inflater_rest(fresh).len() < inflater_rest(coder).len() {
                        members_read(fresh, Seq::empty(), h, room)
                    } else {
                        MembersRead { result: Err(GzError::Corrupt), ..still }
                    }
                },
            }
        },
    }
}

/// How a member ends whose data was `member`, where `rest` is what is left
/// of the input behind its deflate data.
///
/// The first eight bytes of the rest must be the trailer that belongs to
/// the data, or the stream is corrupt. Where nothing follows them, the
/// stream is at its end. Otherwise the header of the next member must
/// follow: its fields and its length are the outcome, or the error met in
/// it.
pub open spec fn member_end(rest: Seq<u8>, member: Seq<u8>) -> Result<
    Option<(HeaderFields, int)>,
    GzError,
> {
    if rest.len() < 8 || rest.take(8) != trailer_of(member) {
        Err(GzError::Corrupt)
    } else if rest.len() == 8 {
        Ok(None)
    } else {
        match parse_header(rest.skip(8)) {
            Err(e) => Err(e),
            Ok((h, n)) => Ok(Some((h, n))),
        }
    }
}

/// A gzip streaming decoder over bytes held in memory that decodes all
/// members of a multistream.
pub struct MultiDecoderReader {
    inner: MultiDecoderReaderBuf,
}

impl MultiDecoderReader {
    /// The decoder over the source that does the work.
    pub closed spec fn buffered(&self) -> MultiDecoderReaderBuf {
        self.inner
    }

    /// What is left of the input.
    pub open spec fn rest(&self) -> Seq<u8> {
        self.buffered().rest()
    }

    /// The data handed out so far, of all members.
    pub open spec fn produced(&self) -> Seq<u8> {
        self.buffered().produced()
    }

    /// The data handed out so far of the member that is being read.
    pub open spec fn member(&self) -> Seq<u8> {
        self.buffered().member()
    }

    /// Whether the end of the last member was reached and its trailer held
    /// good.
    pub open spec fn finished(&self) -> bool {
        self.buffered().finished()
    }

    /// The header of the member that is being read, as a mathematical
    /// value.
    pub open spec fn header_fields(&self) -> HeaderFields {
        self.buffered().header_fields()
    }

    /// Whether all that is left of the input is the trailer that belongs to
    /// the data of the member that was read last.
    pub open spec fn checked(&self) -> bool {
        self.buffered().checked()
    }

    /// Creates a new decoder from the given bytes, immediately parsing the
    /// gzip header. If the gzip stream contains multiple members all will be
    /// decoded.
    ///
    /// The decoder is made exactly where the bytes start with a header;
    /// otherwise the error met in the header comes back.
    pub fn new(r: Vec<u8>) -> (d: Result<MultiDecoderReader, GzError>)
        ensures
            match d {
                Ok(dec) => dec.buffered().opens(r@, 0),
                Err(e) => parse_header(r@) == Err::<(HeaderFields, int), GzError>(e),
            },
    {
        match MultiDecoderReaderBuf::new(Source::new(r)) {
            Ok(inner) => Ok(MultiDecoderReader { inner }),
            Err(e) => Err(e),
        }
    }

    /// Returns the current header associated with this stream.
    pub fn header(&self) -> (h: &Header)
        ensures
            h@ == self.header_fields(),
    {
        self.inner.header()
    }

    /// Reads decompressed bytes into `buf`; see
    /// [`MultiDecoderReaderBuf::read`].
    pub fn read(&mut self, into: &mut [u8]) -> (r: Result<usize, GzError>)
        ensures
            final(into)@.len() == old(into)@.len(),
            old(self).finished() || old(into)@.len() == 0 ==> r == Ok::<usize, GzError>(0)
                && *final(self) == *old(self) && final(into)@ == old(into)@,
            !old(self).finished() && old(into)@.len() > 0 ==> old(self).buffered().reads(
                final(self).buffered(),
                old(into)@.len(),
                r,
                final(into)@,
            ),
            match r {
                Ok(n) => {
                    &&& n <= old(into)@.len()
                    &&& final(self).produced() == old(self).produced() + final(into)@.subrange(
                        0,
                        n as int,
                    )
                    &&& (n == 0 && old(into)@.len() > 0 ==> final(self).finished())
                    &&& (final(self).finished() && !old(self).finished() ==> final(self).checked())
                },
                Err(_) => final(self).produced() == old(self).produced(),
            },
    {
        self.inner.read(into)
    }
}

} // verus!
