//! A gzip stream to read from: the compressed form of bytes held in memory.
//!
//! The header comes first, then the deflate data, which a deflate encoder
//! makes of the input, then the trailer. The trailer belongs to the part of
//! the input that the deflate encoder had taken when it reported the end of
//! its data: that is the part between the place where its cursor stood at
//! first and the place where it stands then.

use crate::bytes::copy_range;
use crate::gz::crc::{push_le32, trailer_of, Crc32, GzError};
use crate::gz::header::{header_bytes, Builder, HeaderFields, OS_UNKNOWN};
use crate::gz::stream::{
    squeezer, squeezer_at, squeezer_data, squeezer_input, squeezer_over, squeezer_parts,
    squeezer_position, squeezer_read, squeezer_read_gives, squeezer_read_leaves, Squeezer,
};
use crate::header::GzQuality;
use crate::source::Source;
use vstd::prelude::*;

verus! {

/// Copies bytes of `from`, starting at `*pos`, to the front of `into`, as
/// many as fit, and moves `*pos` behind them. The count comes back.
pub fn copy(into: &mut [u8], from: &[u8], pos: &mut usize) -> (n: usize)
    requires
        *old(pos) <= from@.len(),
    ensures
        final(into)@.len() == old(into)@.len(),
        n <= old(into)@.len(),
        n <= from@.len() - *old(pos),
        n == old(into)@.len() || n == from@.len() - *old(pos),
        *final(pos) == *old(pos) + n,
        final(into)@.subrange(0, n as int) == from@.subrange(
            *old(pos) as int,
            *old(pos) + n as int,
        ),
        forall|j: int| n <= j < old(into)@.len() ==> final(into)@[j] == old(into)@[j],
{
    let left = from.len() - *pos;
    let min = if into.len() <= left {
        into.len()
    } else {
        left
    };
    let start = *pos;
    let mut i: usize = 0;
    while i < min
        invariant
            i <= min,
            min <= into@.len(),
            start + min <= from.len(),
            into@.len() == old(into)@.len(),
            forall|j: int| 0 <= j < i ==> into@[j] == from@[start + j],
            forall|j: int| i <= j < into@.len() ==> into@[j] == old(into)@[j],
        decreases min - i,
    {
        into[i] = from[start + i];
        i += 1;
    }
    assert(into@.subrange(0, min as int) =~= from@.subrange(start as int, start + min as int));
    *pos = start + min;
    min
}

/// The bytes of `data` between the positions `start` and `at`, neither
/// taken further than the end of the data, nor `at` further back than
/// `start`.
pub open spec fn between(data: Seq<u8>, start: nat, at: nat) -> Seq<u8> {
    let from = if start <= data.len() {
        start
    } else {
        data.len()
    };
    let to = if at < from {
        from
    } else if at <= data.len() {
        at
    } else {
        data.len()
    };
    data.subrange(from as int, to as int)
}

/// The part of its input that a deflate encoder has taken since its cursor
/// stood at `start`.
pub open spec fn taken_by(d: Squeezer, start: nat) -> Seq<u8> {
    between(squeezer_data(d), start, squeezer_at(d))
}

/// A checksum of the part of its input that a deflate encoder has taken
/// since its cursor stood at `start`.
fn sum_of_taken(d: &Squeezer, start: usize) -> (crc: Crc32)
    ensures
        crc.data() == taken_by(*d, start as nat),
{
    let data = squeezer_input(d);
    let at = squeezer_position(d);
    let len = data.len();
    let from = if start <= len {
        start
    } else {
        len
    };
    let to = if at < from as u64 {
        from
    } else if at <= len as u64 {
        at as usize
    } else {
        len
    };
    let part = copy_range(data, from, to);
    let mut crc = Crc32::new();
    crc.update(part.as_slice());
    assert(crc.data() =~= part@);
    crc
}

/// A gzip streaming encoder.
///
/// It reads uncompressed data from a source and hands out the gzip stream:
/// the header, the compressed data, and the trailer.
pub struct EncoderReaderBuf {
    inner: Squeezer,
    start: usize,
    crc: Crc32,
    header: Vec<u8>,
    pos: usize,
    eof: bool,
    body: Ghost<Seq<u8>>,
}

impl Builder {
    /// Consume this builder, creating a reader encoder in the process.
    ///
    /// Data read from the returned encoder will be the compressed version
    /// of the bytes of `r`.
    pub fn read(self, r: Vec<u8>, lvl: GzQuality) -> (e: EncoderReader)
        ensures
            e.head() == header_bytes(self.fields(), lvl, self.os_byte()),
            e.emitted() == Seq::<u8>::empty(),
            e.input() == r@,
            e.consumed() == Seq::<u8>::empty(),
            !e.done(),
            e.pending() == Some(e.head()),
            e.buffered().begin() == 0,
            e.buffered().coder() == squeezer_over(r@, 0, lvl.spec_level()),
    {
        EncoderReader { inner: self.buf_read(Source::new(r), lvl) }
    }

    /// Consume this builder, creating a reader encoder in the process.
    ///
    /// Data read from the returned encoder will be the compressed version
    /// of what is left of the source `r`.
    pub fn buf_read(self, r: Source, lvl: GzQuality) -> (e: EncoderReaderBuf)
        ensures
            e.head() == header_bytes(self.fields(), lvl, self.os_byte()),
            e.emitted() == Seq::<u8>::empty(),
            e.input() == r.data@,
            e.begin() == r.pos,
            e.consumed() == Seq::<u8>::empty(),
            !e.done(),
            e.pending() == Some(e.head()),
            e.coder() == squeezer_over(r.data@, r.pos as nat, lvl.spec_level()),
    {
        let Source { data, pos } = r;
        let inner = squeezer(data, pos, lvl.level());
        let header = self.into_header(lvl);
        let e = EncoderReaderBuf {
            inner,
            start: pos,
            crc: Crc32::new(),
            header,
            pos: 0,
            eof: false,
            body: Ghost(Seq::empty()),
        };
        assert(taken_by(e.inner, pos as nat) =~= Seq::<u8>::empty());
        assert(e.header@.take(0) =~= Seq::<u8>::empty());
        assert(e.header@.skip(0) =~= e.header@);
        e
    }
}

impl EncoderReaderBuf {
    /// The bytes of the header of the stream.
    pub closed spec fn head(&self) -> Seq<u8> {
        self.header@
    }

    /// All the bytes handed out so far: a part of the header; or the header
    /// and compressed data; or, once the data is at its end, the header, the
    /// compressed data and a part of the trailer that belongs to the data
    /// taken.
    pub closed spec fn emitted(&self) -> Seq<u8> {
        if self.eof {
            self.header@ + self.body@ + trailer_of(self.crc.data()).take(
                if self.pos < 8 {
                    self.pos as int
                } else {
                    8
                },
            )
        } else if self.pos < self.header@.len() {
            self.header@.take(self.pos as int)
        } else {
            self.header@ + self.body@
        }
    }

    /// The uncompressed data.
    pub open spec fn input(&self) -> Seq<u8> {
        squeezer_data(self.coder())
    }

    /// Where in the uncompressed data the encoder began.
    pub closed spec fn begin(&self) -> nat {
        self.start as nat
    }

    /// The part of the uncompressed data that the deflate encoder has
    /// taken: once the data is at its end, the part that it had taken by
    /// then.
    pub closed spec fn consumed(&self) -> Seq<u8> {
        if self.eof {
            self.crc.data()
        } else {
            taken_by(self.inner, self.start as nat)
        }
    }

    /// The bytes that come next whatever the deflate encoder does: what is left of
    /// the header while the header is being handed out, and what is left of
    /// the trailer once the data is at its end. There are none such while
    /// compressed data is due.
    pub closed spec fn pending(&self) -> Option<Seq<u8>> {
        if self.eof {
            Some(
                trailer_of(self.crc.data()).skip(
                    if self.pos < 8 {
                        self.pos as int
                    } else {
                        8
                    },
                ),
            )
        } else if self.pos < self.header@.len() {
            Some(self.header@.skip(self.pos as int))
        } else {
            None
        }
    }

    /// The state of the deflate encoder.
    pub closed spec fn coder(&self) -> Squeezer {
        self.inner
    }

    /// What a call of `read` comes to where compressed data is due and the
    /// buffer has room: the deflate encoder is asked to fill the buffer. Its
    /// failure ends the call. Bytes that it hands back are the outcome.
    /// Where it hands back none, the data is at its end, and the first bytes
    /// of the trailer that belongs to the data taken are handed out at once,
    /// as many as fit.
    pub open spec fn squeezes(
        self,
        after: Self,
        room: nat,
        r: Result<usize, GzError>,
        got: Seq<u8>,
    ) -> bool {
        let next = squeezer_read_leaves(self.coder(), room);
        &&& after.coder() == next
        &&& after.begin() == self.begin()
        &&& after.consumed() == taken_by(next, self.begin())
        &&& match squeezer_read_gives(self.coder(), room) {
            Err(_) => r == Err::<usize, GzError>(GzError::Deflate) && after.pending() is None,
            Ok(bytes) => if bytes.len() > 0 {
                &&& r is Ok
                &&& r->Ok_0 == bytes.len()
                &&& got.subrange(0, bytes.len() as int) == bytes
                &&& after.pending() is None
            } else {
                let t = trailer_of(after.consumed());
                let k = if room <= 8 {
                    room as int
                } else {
                    8
                };
                &&& r == Ok::<usize, GzError>(k as usize)
                &&& got.subrange(0, k) == t.take(k)
                &&& after.pending() == Some(t.skip(k))
            },
        }
    }

    /// What a call of `read` comes to where the bytes `next` are pending:
    /// it cannot fail, hands out as many of them as fit, and leaves the rest
    /// pending; the input and the deflate encoder are not touched.
    pub open spec fn hands_out(
        self,
        after: Self,
        next: Seq<u8>,
        room: int,
        r: Result<usize, GzError>,
        got: Seq<u8>,
    ) -> bool {
        let n = if room <= next.len() {
            room
        } else {
            next.len() as int
        };
        &&& r == Ok::<usize, GzError>(n as usize)
        &&& got.subrange(0, n) == next.take(n)
        &&& after.coder() == self.coder()
        &&& after.begin() == self.begin()
        &&& after.consumed() == self.consumed()
        &&& (n < next.len() ==> after.pending() == Some(next.skip(n)))
    }

    /// Whether the whole stream has been handed out.
    pub closed spec fn done(&self) -> bool {
        self.eof && self.pos >= 8
    }

    /// Once the whole stream has been handed out, it starts with the header
    /// and ends with the trailer that belongs to the data taken.
    pub proof fn lemma_done_means_complete(&self)
        requires
            self.done(),
        ensures
            self.head().is_prefix_of(self.emitted()),
            trailer_of(self.consumed()).is_suffix_of(self.emitted()),
            self.emitted().len() >= self.head().len() + 8,
    {
        let t = trailer_of(self.consumed());
        assert(t.len() == 8);
        assert(t.take(8) =~= t);
        let e = self.emitted();
        assert(e.subrange(0, self.head().len() as int) =~= self.head());
        assert(e.subrange(e.len() - 8, e.len() as int) =~= t);
    }

    /// Creates a new encoder which will use the given compression level.
    ///
    /// The encoder is not configured specially for the emitted header. For
    /// header configuration, see the `Builder` type.
    ///
    /// What is left of the source `r` will be compressed and available
    /// through the returned reader.
    pub fn new(r: Source, level: GzQuality) -> (e: EncoderReaderBuf)
        ensures
            e.emitted() == Seq::<u8>::empty(),
            e.input() == r.data@,
            e.begin() == r.pos,
            e.consumed() == Seq::<u8>::empty(),
            !e.done(),
            e.pending() == Some(e.head()),
            e.coder() == squeezer_over(r.data@, r.pos as nat, level.spec_level()),
            e.head() == header_bytes(
                HeaderFields { extra: None, filename: None, comment: None, mtime: 0 },
                level,
                OS_UNKNOWN,
            ),
    {
        Builder::new().buf_read(r, level)
    }

    /// Returns the underlying source, consuming this encoder: the
    /// uncompressed data, and how far the deflate encoder has read it.
    pub fn into_inner(self) -> (r: Source)
        ensures
            r.data@ == self.input(),
            r.pos == if squeezer_at(self.coder()) <= usize::MAX {
                squeezer_at(self.coder())
            } else {
                usize::MAX as nat
            },
    {
        let (data, at) = squeezer_parts(self.inner);
        let pos: usize = if at <= usize::MAX as u64 {
            at as usize
        } else {
            usize::MAX
        };
        Source { data, pos }
    }

    /// Hands out bytes of the trailer.
    fn read_footer(&mut self, into: &mut [u8]) -> (n: usize)
        requires
            old(self).eof,
        ensures
            final(self).eof,
            final(into)@.len() == old(into)@.len(),
            n <= old(into)@.len(),
            final(self).emitted() == old(self).emitted() + final(into)@.subrange(0, n as int),
            final(self).head() == old(self).head(),
            final(self).begin() == old(self).begin(),
            final(self).consumed() == old(self).consumed(),
            n == 0 && old(into)@.len() > 0 ==> final(self).done(),
            old(self).done() ==> n == 0,
            old(self).hands_out(
                *final(self),
                old(self).pending()->Some_0,
                old(into)@.len() as int,
                Ok(n),
                final(into)@,
            ),
            n == 0 ==> *final(self) == *old(self) && final(into)@ == old(into)@,
            final(self).pending() == Some(old(self).pending()->Some_0.skip(n as int)),
            final(self).coder() == old(self).coder(),
    {
        if self.pos >= 8 {
            assert(self.emitted() + into@.subrange(0, 0) =~= self.emitted());
            proof {
                let next = self.pending()->Some_0;
                assert(trailer_of(self.crc.data()).len() == 8);
                assert(into@.subrange(0, 0) =~= next.take(0));
                assert(next.skip(0) =~= next);
            }
            return 0;
        }
        let mut arr: Vec<u8> = Vec::new();
        push_le32(&mut arr, self.crc.sum());
        push_le32(&mut arr, self.crc.amt_as_u32());
        let ghost t = trailer_of(self.crc.data());
        assert(arr@ =~= t);
        let ghost pos0 = self.pos;
        let n = copy(into, arr.as_slice(), &mut self.pos);
        proof {
            let piece = into@.subrange(0, n as int);
            let front = self.header@ + self.body@;
            assert(piece == t.subrange(pos0 as int, pos0 + n));
            assert(t.take(pos0 as int) + piece =~= t.take(self.pos as int));
            assert((front + t.take(pos0 as int)) + piece =~= front + (t.take(pos0 as int)
                + piece));
            let next = t.skip(pos0 as int);
            assert(piece =~= next.take(n as int));
            assert(t.skip(self.pos as int) =~= next.skip(n as int));
            if n == 0 {
                assert(into@ =~= old(into)@);
            }
        }
        n
    }

    /// Reads bytes of the gzip stream into `buf`.
    ///
    /// The header comes first, then the compressed data, then the trailer.
    /// The count of bytes written to the front of `buf` comes back; zero for
    /// a buffer with room means that the stream is complete.
    pub fn read(&mut self, into: &mut [u8]) -> (r: Result<usize, GzError>)
        ensures
            final(into)@.len() == old(into)@.len(),
            final(self).head() == old(self).head(),
            final(self).input() == old(self).input(),
            old(self).pending() matches Some(next) ==> old(self).hands_out(
                *final(self),
                next,
                old(into)@.len() as int,
                r,
                final(into)@,
            ),
            old(self).pending() is None && old(into)@.len() > 0 ==> old(self).squeezes(
                *final(self),
                old(into)@.len(),
                r,
                final(into)@,
            ),
            old(into)@.len() == 0 ==> r == Ok::<usize, GzError>(0) && *final(self) == *old(self)
                && final(into)@ == old(into)@,
            match r {
                Ok(n) => {
                    &&& n <= old(into)@.len()
                    &&& final(self).emitted() == old(self).emitted() + final(into)@.subrange(
                        0,
                        n as int,
                    )
                    &&& (n == 0 && old(into)@.len() > 0 ==> final(self).done())
                },
                Err(_) => final(self).emitted() == old(self).emitted(),
            },
    {
        if self.eof {
            return Ok(self.read_footer(into));
        }
        if into.len() == 0 {
            proof {
                assert(self.emitted() + into@.subrange(0, 0) =~= self.emitted());
                if self.pending() is Some {
                    let next = self.pending()->Some_0;
                    assert(into@.subrange(0, 0) =~= next.take(0));
                    assert(next.skip(0) =~= next);
                }
            }
            return Ok(0);
        }
        if self.pos < self.header.len() {
            let ghost pos0 = self.pos;
            let n = copy(into, self.header.as_slice(), &mut self.pos);
            proof {
                self.body@ = Seq::empty();
                assert(self.header@.take(pos0 as int) + self.header@.subrange(
                    pos0 as int,
                    pos0 + n,
                ) =~= self.header@.take(self.pos as int));
                if self.pos == self.header@.len() {
                    assert(self.header@.take(self.pos as int) =~= self.header@);
                    assert(self.header@ + self.body@ =~= self.header@);
                }
                let next = self.header@.skip(pos0 as int);
                assert(into@.subrange(0, n as int) =~= next.take(n as int));
                assert(self.header@.skip(self.pos as int) =~= next.skip(n as int));
            }
            return Ok(n);
        }
        let ghost body0 = self.body@;
        match squeezer_read(&mut self.inner, into) {
            Err(_) => Err(GzError::Deflate),
            Ok(0) => {
                self.crc = sum_of_taken(&self.inner, self.start);
                self.eof = true;
                self.pos = 0;
                let ghost t = trailer_of(self.crc.data());
                proof {
                    assert(t.take(0) =~= Seq::<u8>::empty());
                    assert(self.header@ + self.body@ + Seq::<u8>::empty() =~= self.header@
                        + self.body@);
                    assert(t.skip(0) =~= t);
                    assert(t.len() == 8);
                }
                let n = self.read_footer(into);
                proof {
                    assert(into@.subrange(0, n as int) == t.take(n as int));
                }
                Ok(n)
            },
            Ok(n) => {
                proof {
                    let piece = into@.subrange(0, n as int);
                    self.body@ = self.body@ + piece;
                    assert(self.header@ + (body0 + piece) =~= (self.header@ + body0) + piece);
                }
                Ok(n)
            },
        }
    }
}

/// A gzip streaming encoder over bytes held in memory.
///
/// It reads uncompressed data from the bytes and hands out the gzip stream:
/// the header, the compressed data, and the trailer.
pub struct EncoderReader {
    inner: EncoderReaderBuf,
}

impl EncoderReader {
    /// The encoder over the source that does the work.
    pub closed spec fn buffered(&self) -> EncoderReaderBuf {
        self.inner
    }

    /// The bytes of the header of the stream.
    pub open spec fn head(&self) -> Seq<u8> {
        self.buffered().head()
    }

    /// All the bytes handed out so far.
    pub open spec fn emitted(&self) -> Seq<u8> {
        self.buffered().emitted()
    }

    /// The uncompressed data.
    pub open spec fn input(&self) -> Seq<u8> {
        self.buffered().input()
    }

    /// The part of the uncompressed data that the deflate encoder has taken.
    pub open spec fn consumed(&self) -> Seq<u8> {
        self.buffered().consumed()
    }

    /// Whether the whole stream has been handed out.
    pub open spec fn done(&self) -> bool {
        self.buffered().done()
    }

    /// The bytes that come next whatever the deflate encoder does: what is left of
    /// the header while the header is being handed out, and what is left of
    /// the trailer once the data is at its end. There are none such while
    /// compressed data is due.
    pub open spec fn pending(&self) -> Option<Seq<u8>> {
        self.buffered().pending()
    }

    /// Once the whole stream has been handed out, it starts with the header
    /// and ends with the trailer that belongs to the data taken.
    pub proof fn lemma_done_means_complete(&self)
        requires
            self.done(),
        ensures
            self.head().is_prefix_of(self.emitted()),
            trailer_of(self.consumed()).is_suffix_of(self.emitted()),
            self.emitted().len() >= self.head().len() + 8,
    {
        self.inner.lemma_done_means_complete();
    }

    /// Creates a new encoder which will use the given compression level.
    ///
    /// The encoder is not configured specially for the emitted header. For
    /// header configuration, see the `Builder` type.
    ///
    /// The bytes of `r` will be compressed and available through the
    /// returned reader.
    pub fn new(r: Vec<u8>, level: GzQuality) -> (e: EncoderReader)
        ensures
            e.emitted() == Seq::<u8>::empty(),
            e.input() == r@,
            e.consumed() == Seq::<u8>::empty(),
            !e.done(),
            e.pending() == Some(e.head()),
            e.buffered().begin() == 0,
            e.buffered().coder() == squeezer_over(r@, 0, level.spec_level()),
            e.head() == header_bytes(
                HeaderFields { extra: None, filename: None, comment: None, mtime: 0 },
                level,
                OS_UNKNOWN,
            ),
    {
        Builder::new().read(r, level)
    }

    /// Returns the underlying bytes, consuming this encoder.
    pub fn into_inner(self) -> (r: Vec<u8>)
        ensures
            r@ == self.input(),
    {
        self.inner.into_inner().into_inner()
    }

    /// Reads bytes of the gzip stream into `buf`; see
    /// [`EncoderReaderBuf::read`].
    pub fn read(&mut self, into: &mut [u8]) -> (r: Result<usize, GzError>)
        ensures
            final(into)@.len() == old(into)@.len(),
            final(self).head() == old(self).head(),
            final(self).input() == old(self).input(),
            old(self).pending() matches Some(next) ==> {
                let n = if old(into)@.len() <= next.len() {
                    old(into)@.len()
                } else {
                    next.len()
                };
                &&& r == Ok::<usize, GzError>(n as usize)
                &&& final(into)@.subrange(0, n as int) == next.take(n as int)
                &&& final(self).consumed() == old(self).consumed()
                &&& (n < next.len() ==> final(self).pending() == Some(next.skip(n as int)))
            },
            old(self).pending() is None && old(into)@.len() > 0 ==> old(self).buffered().squeezes(
                final(self).buffered(),
                old(into)@.len(),
                r,
                final(into)@,
            ),
            old(into)@.len() == 0 ==> r == Ok::<usize, GzError>(0) && *final(self) == *old(self)
                && final(into)@ == old(into)@,
            match r {
                Ok(n) => {
                    &&& n <= old(into)@.len()
                    &&& final(self).emitted() == old(self).emitted() + final(into)@.subrange(
                        0,
                        n as int,
                    )
                    &&& (n == 0 && old(into)@.len() > 0 ==> final(self).done())
                },
                Err(_) => final(self).emitted() == old(self).emitted(),
            },
    {
        self.inner.read(into)
    }
}

} // verus!
