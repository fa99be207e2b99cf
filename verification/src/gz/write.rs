//! Writing a gzip stream.

use crate::bytes::append;
use crate::gz::crc::{push_le32, trailer_of, Crc32, GzError};
use crate::gz::header::{header_bytes, Builder, HeaderFields, OS_UNKNOWN};
use crate::gz::stream::{
    deflater, deflater_finish, deflater_finish_gives, deflater_flush, deflater_flush_gives,
    deflater_flush_leaves, deflater_made, deflater_write, deflater_write_gives,
    deflater_write_leaves, Deflater,
};
use crate::header::GzQuality;
use vstd::prelude::*;
use vstd::slice::slice_subrange;

verus! {

/// A gzip streaming encoder.
///
/// What is written to it goes through a deflate encoder and into the
/// checksum; `finish` completes the stream and gives back the sink with the
/// stream appended: header, deflate data, trailer.
pub struct EncoderWriter {
    inner: Deflater,
    sink: Vec<u8>,
    header: Vec<u8>,
    crc: Crc32,
}

impl Builder {
    /// Consume this builder, creating a writer encoder in the process.
    ///
    /// The data written to the returned encoder will be compressed and then
    /// appended to `w`.
    pub fn write(self, w: Vec<u8>, lvl: GzQuality) -> (e: EncoderWriter)
        ensures
            e.base() == w@,
            e.head() == header_bytes(self.fields(), lvl, self.os_byte()),
            e.taken() == Seq::<u8>::empty(),
            e.coder() == deflater_made(lvl.spec_level()),
    {
        let inner = deflater(lvl.level());
        let header = self.into_header(lvl);
        EncoderWriter { inner, sink: w, header, crc: Crc32::new() }
    }
}

impl EncoderWriter {
    /// What the sink held when the encoder was made.
    pub closed spec fn base(&self) -> Seq<u8> {
        self.sink@
    }

    /// The bytes of the header of the stream.
    pub closed spec fn head(&self) -> Seq<u8> {
        self.header@
    }

    /// The data accepted so far.
    pub closed spec fn taken(&self) -> Seq<u8> {
        self.crc.data()
    }

    /// The state of the deflate encoder.
    pub closed spec fn coder(&self) -> Deflater {
        self.inner
    }

    /// What `finish` hands out for an encoder in this state: what the sink
    /// held, the header, the deflate data as the encoder completes it, and
    /// the trailer of the data; or `None` where the encoder fails.
    pub open spec fn finished(&self) -> Option<Seq<u8>> {
        match deflater_finish_gives(self.coder()) {
            Ok(body) => Some(self.base() + self.head() + body + trailer_of(self.taken())),
            Err(_) => None,
        }
    }

    /// Creates a new encoder which will use the given compression level.
    ///
    /// The encoder is not configured specially for the emitted header. For
    /// header configuration, see the `Builder` type.
    ///
    /// The data written to the returned encoder will be compressed and then
    /// appended to `w`.
    pub fn new(w: Vec<u8>, level: GzQuality) -> (e: EncoderWriter)
        ensures
            e.base() == w@,
            e.taken() == Seq::<u8>::empty(),
            e.coder() == deflater_made(level.spec_level()),
            e.head() == header_bytes(
                HeaderFields { extra: None, filename: None, comment: None, mtime: 0 },
                level,
                OS_UNKNOWN,
            ),
    {
        Builder::new().write(w, level)
    }

    /// Compresses bytes of `buf`.
    ///
    /// The deflate encoder is handed the buffer. The count of bytes that it
    /// took from the front of `buf` comes back, and they are part of the data
    /// from then on; or it fails, and nothing is taken.
    pub fn write(&mut self, buf: &[u8]) -> (r: Result<usize, GzError>)
        ensures
            match deflater_write_gives(old(self).coder(), buf@) {
                Ok(n) => r is Ok && r->Ok_0 == n && n <= buf@.len() && final(self).taken() == old(
                    self,
                ).taken() + buf@.subrange(0, n as int),
                Err(_) => r == Err::<usize, GzError>(GzError::Deflate) && final(self).taken()
                    == old(self).taken(),
            },
            final(self).coder() == deflater_write_leaves(old(self).coder(), buf@),
            final(self).base() == old(self).base(),
            final(self).head() == old(self).head(),
    {
        match deflater_write(&mut self.inner, buf) {
            Ok(n) => {
                self.crc.update(slice_subrange(buf, 0, n));
                Ok(n)
            },
            Err(_) => Err(GzError::Deflate),
        }
    }

    /// Makes the deflate encoder put out what it holds back. The data and
    /// the header stay as they are.
    pub fn flush(&mut self) -> (r: Result<(), GzError>)
        ensures
            match deflater_flush_gives(old(self).coder()) {
                None => r is Ok,
                Some(_) => r == Err::<(), GzError>(GzError::Deflate),
            },
            final(self).coder() == deflater_flush_leaves(old(self).coder()),
            final(self).base() == old(self).base(),
            final(self).head() == old(self).head(),
            final(self).taken() == old(self).taken(),
    {
        match deflater_flush(&mut self.inner) {
            Ok(_) => Ok(()),
            Err(_) => Err(GzError::Deflate),
        }
    }

    /// Finish encoding this stream, returning the underlying sink once the
    /// encoding is done.
    ///
    /// The sink then holds what it held at first, the header, the deflate
    /// data, and the trailer with the checksum and the length of the data
    /// that was written; and nothing else.
    pub fn finish(self) -> (r: Result<Vec<u8>, GzError>)
        ensures
            match self.finished() {
                Some(out) => r is Ok && r->Ok_0@ == out,
                None => r == Err::<Vec<u8>, GzError>(GzError::Deflate),
            },
    {
        let EncoderWriter { inner, sink, header, crc } = self;
        match deflater_finish(inner) {
            Ok(body) => {
                let mut out = sink;
                append(&mut out, header.as_slice());
                append(&mut out, body.as_slice());
                push_le32(&mut out, crc.sum());
                push_le32(&mut out, crc.amt_as_u32());
                assert(out@ =~= sink@ + header@ + body@ + trailer_of(crc.data()));
                Ok(out)
            },
            Err(_) => Err(GzError::Deflate),
        }
    }
}

/// A finished stream starts with what the sink held and the header, and
/// ends with the trailer of its data.
pub proof fn lemma_finished_stream_is_framed(
    out: Seq<u8>,
    base: Seq<u8>,
    head: Seq<u8>,
    body: Seq<u8>,
    taken: Seq<u8>,
)
    requires
        out == base + head + body + trailer_of(taken),
    ensures
        base.is_prefix_of(out),
        (base + head).is_prefix_of(out),
        trailer_of(taken).is_suffix_of(out),
        out.len() == base.len() + head.len() + body.len() + 8,
{
    let t = trailer_of(taken);
    assert(t.len() == 8);
    assert(out.subrange(0, base.len() as int) =~= base);
    assert(out.subrange(0, (base + head).len() as int) =~= base + head);
    assert(out.subrange(out.len() - 8, out.len() as int) =~= t);
}

} // verus!
