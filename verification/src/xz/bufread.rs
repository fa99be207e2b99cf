//! xz streams over a byte source held in memory.

use crate::source::Source;
use crate::xz::stream::{
    consumed_by, easy_encoder_gives, process_gives, process_leaves, process_puts, produced_by,
    stream_decoder_gives,
};
use vstd::prelude::*;
use xz2::stream::{Action, Check, Error, Status, Stream};

verus! {

/// Why an xz stream could not be set up or went wrong.
#[derive(Clone, Copy, Debug, PartialEq, Eq, Structural)]
pub enum XzError {
    /// The underlying data was corrupt.
    Data,
    /// Invalid or unsupported options were specified.
    Options,
    /// File format was not recognized.
    Format,
    /// Memory usage limit was reached.
    MemLimit,
    /// Memory could not be allocated.
    Mem,
    /// A programming error was encountered.
    Program,
    /// No integrity check was available for this stream.
    NoCheck,
    /// The integrity check of this stream is not supported.
    UnsupportedCheck,
    /// The coder neither consumed input nor produced output although it had
    /// both input and room.
    Stalled,
    /// The input is used up and the stream is not at its end.
    Truncated,
}

impl XzError {
    /// The error of the library that stands for an error of the stream.
    pub open spec fn of(e: Error) -> XzError {
        match e {
            Error::Data => XzError::Data,
            Error::Options => XzError::Options,
            Error::Format => XzError::Format,
            Error::MemLimit => XzError::MemLimit,
            Error::Mem => XzError::Mem,
            Error::Program => XzError::Program,
            Error::NoCheck => XzError::NoCheck,
            Error::UnsupportedCheck => XzError::UnsupportedCheck,
        }
    }

    pub fn from_stream(e: Error) -> (r: XzError)
        ensures
            r == XzError::of(e),
            r != XzError::Stalled,
            r != XzError::Truncated,
    {
        match e {
            Error::Data => XzError::Data,
            Error::Options => XzError::Options,
            Error::Format => XzError::Format,
            Error::MemLimit => XzError::MemLimit,
            Error::Mem => XzError::Mem,
            Error::Program => XzError::Program,
            Error::NoCheck => XzError::NoCheck,
            Error::UnsupportedCheck => XzError::UnsupportedCheck,
        }
    }
}

/// What follows one run of the coder.
#[derive(Clone, Copy, Debug, PartialEq, Eq, Structural)]
pub enum Step {
    /// The call is over and hands back this many bytes.
    Return(usize),
    /// The call is over with an error.
    Fail(XzError),
    /// The coder took input and gave nothing yet: run it again.
    Again,
}

/// What follows one run of the coder, which reported `ret`, produced `read`
/// bytes into a buffer of `room` bytes and consumed `consumed` bytes of
/// input, `eof` telling that there was no input left to give.
///
/// An error of the coder ends the call with that error. Bytes produced or a
/// buffer without room end it with the count. At the end of the input a
/// count of zero is handed back only where the coder reports the end of the
/// stream: otherwise the stream is cut short, and the call fails. With
/// input left and nothing produced the coder is run again, as a count of
/// zero would read as the end of the stream; but if it consumed nothing
/// either it would never get further, and the call fails.
pub open spec fn after_process(
    ret: Result<Status, Error>,
    read: usize,
    consumed: usize,
    eof: bool,
    room: usize,
) -> Step {
    match ret {
        Err(e) => Step::Fail(XzError::of(e)),
        Ok(status) => if read > 0 || room == 0 {
            Step::Return(read)
        } else if eof {
            if status is StreamEnd {
                Step::Return(0)
            } else {
                Step::Fail(XzError::Truncated)
            }
        } else if consumed == 0 {
            Step::Fail(XzError::Stalled)
        } else {
            Step::Again
        },
    }
}

/// Decides what follows one run of the coder.
pub fn next_step(ret: Result<Status, Error>, read: usize, consumed: usize, eof: bool, room: usize)
    -> (r: Step)
    ensures
        r == after_process(ret, read, consumed, eof, room),
{
    match ret {
        Err(e) => Step::Fail(XzError::from_stream(e)),
        Ok(status) => {
            if read > 0 || room == 0 {
                Step::Return(read)
            } else if eof {
                match status {
                    Status::StreamEnd => Step::Return(0),
                    _ => Step::Fail(XzError::Truncated),
                }
            } else if consumed == 0 {
                Step::Fail(XzError::Stalled)
            } else {
                Step::Again
            }
        },
    }
}

/// An error that the coder reports is never passed over: the call ends
/// with it, whatever was produced.
pub proof fn lemma_stream_error_is_reported(
    e: Error,
    read: usize,
    consumed: usize,
    eof: bool,
    room: usize,
)
    ensures
        after_process(Err(e), read, consumed, eof, room) == Step::Fail(XzError::of(e)),
{
}

/// A count of zero is handed back only for a buffer without room, or at
/// the end of the input where the coder reports the end of the stream: a
/// stream that is cut short is never taken for a complete one.
pub proof fn lemma_zero_means_end(
    ret: Result<Status, Error>,
    read: usize,
    consumed: usize,
    eof: bool,
    room: usize,
)
    requires
        after_process(ret, read, consumed, eof, room) == Step::Return(0),
    ensures
        room == 0 || (eof && ret == Ok::<Status, Error>(Status::StreamEnd)),
{
}

/// What comes of running a coder until it has something to hand back.
pub struct Pumped {
    /// The count of bytes handed back, or the error.
    pub result: Result<usize, XzError>,
    /// The state in which the coder is left.
    pub stream: Stream,
    /// The number of bytes taken from the input.
    pub taken: int,
    /// The bytes handed back.
    pub bytes: Seq<u8>,
}

/// What comes of running the coder in the state `s` over the input `rest`
/// with room for `room` bytes until it has something to hand back.
///
/// While input is left the coder is run with `Action::Run`, at the end of
/// the input with `at_end`. After each run `after_process` decides: the
/// call is over with a count or an error, or the coder is run again on what
/// is left of the input.
pub open spec fn pumped(s: Stream, rest: Seq<u8>, room: nat, at_end: Action) -> Pumped
    decreases rest.len(),
{
    let eof = rest.len() == 0;
    let action = if eof {
        at_end
    } else {
        Action::Run
    };
    let after = process_leaves(s, rest, room, action);
    let read = produced_by(after) - produced_by(s);
    let consumed = consumed_by(after) - consumed_by(s);
    match after_process(
        process_gives(s, rest, room, action),
        read as usize,
        consumed as usize,
        eof,
        room as usize,
    ) {
        Step::Return(n) => Pumped {
            result: Ok(n),
            stream: after,
            taken: consumed,
            bytes: process_puts(s, rest, room, action),
        },
        Step::Fail(e) => Pumped {
            result: Err(e),
            stream: after,
            taken: consumed,
            bytes: Seq::empty(),
        },
        Step::Again => if 0 < consumed <= rest.len() {
            let then = pumped(after, rest.skip(consumed), room, at_end);
            Pumped { taken: consumed + then.taken, ..then }
        } else {
            Pumped {
                result: Err(XzError::Stalled),
                stream: after,
                taken: consumed,
                bytes: Seq::empty(),
            }
        },
    }
}

/// Whether a call of `read` that found source and coder as `before`, left
/// them as `after`, returned `r` and left `got` in the buffer of `room`
/// bytes did what `pumped` says: the result, the state of the coder, how far
/// the source advanced, and the bytes at the front of the buffer.
pub open spec fn reads(
    before: (Source, Stream),
    after: (Source, Stream),
    room: nat,
    at_end: Action,
    r: Result<usize, XzError>,
    got: Seq<u8>,
) -> bool {
    let p = pumped(before.1, before.0.rest(), room, at_end);
    &&& r == p.result
    &&& after.1 == p.stream
    &&& after.0.data == before.0.data
    &&& after.0.pos == before.0.pos + p.taken
    &&& (before.0.pos <= before.0.data@.len() ==> after.0.pos <= after.0.data@.len())
    &&& got.len() == room
    &&& (r matches Ok(n) ==> got.subrange(0, n as int) == p.bytes)
}

/// Runs the coder until it has something to hand back.
///
/// While the input lasts the coder is run with `Action::Run`; at its end
/// with `at_end`.
fn pump(obj: &mut Source, data: &mut Stream, buf: &mut [u8], at_end: Action) -> (r: Result<
    usize,
    XzError,
>)
    ensures
        r == pumped(*old(data), old(obj).rest(), old(buf)@.len(), at_end).result,
        *final(data) == pumped(*old(data), old(obj).rest(), old(buf)@.len(), at_end).stream,
        final(obj).pos == old(obj).pos + pumped(
            *old(data),
            old(obj).rest(),
            old(buf)@.len(),
            at_end,
        ).taken,
        r matches Ok(n) ==> final(buf)@.subrange(0, n as int) == pumped(
            *old(data),
            old(obj).rest(),
            old(buf)@.len(),
            at_end,
        ).bytes,
        final(buf)@.len() == old(buf)@.len(),
        final(obj).data == old(obj).data,
        old(obj).pos <= final(obj).pos,
        old(obj).pos <= old(obj).data@.len() ==> final(obj).pos <= final(obj).data@.len(),
        consumed_by(*old(data)) <= consumed_by(*final(data)),
        produced_by(*old(data)) <= produced_by(*final(data)),
        r matches Ok(n) ==> {
            &&& n <= old(buf)@.len()
            &&& produced_by(*final(data)) == produced_by(*old(data)) + n
            &&& consumed_by(*final(data)) - consumed_by(*old(data)) == final(obj).pos - old(obj).pos
            &&& (n == 0 && old(buf)@.len() > 0 ==> final(obj).rest().len() == 0)
        },
{
    let ghost whole = pumped(*data, obj.rest(), buf@.len(), at_end);
    loop
        invariant
            buf@.len() == old(buf)@.len(),
            obj.data == old(obj).data,
            old(obj).pos <= obj.pos,
            old(obj).pos <= old(obj).data@.len() ==> obj.pos <= obj.data@.len(),
            produced_by(*data) == produced_by(*old(data)),
            consumed_by(*data) == consumed_by(*old(data)) + (obj.pos - old(obj).pos),
            whole == pumped(*old(data), old(obj).rest(), old(buf)@.len(), at_end),
            whole.result == pumped(*data, obj.rest(), buf@.len(), at_end).result,
            whole.stream == pumped(*data, obj.rest(), buf@.len(), at_end).stream,
            whole.bytes == pumped(*data, obj.rest(), buf@.len(), at_end).bytes,
            whole.taken == (obj.pos - old(obj).pos) + pumped(
                *data,
                obj.rest(),
                buf@.len(),
                at_end,
            ).taken,
        decreases obj.rest().len(),
    {
        let ghost before = *data;
        let ghost rest = obj.rest();
        let input = obj.fill_buf();
        let eof = input.len() == 0;
        let before_out = data.total_out();
        let before_in = data.total_in();
        let ret = if eof {
            data.process(input, buf, at_end)
        } else {
            data.process(input, buf, Action::Run)
        };
        let read = (data.total_out() - before_out) as usize;
        let consumed = (data.total_in() - before_in) as usize;
        let room = buf.len();
        obj.consume(consumed);
        match next_step(ret, read, consumed, eof, room) {
            Step::Return(n) => {
                return Ok(n);
            },
            Step::Fail(e) => {
                return Err(e);
            },
            Step::Again => {},
        }
    }
}

/// Whether a constructor that got `gives` from the coder and the source `r`
/// made what it should: a handle over that source and that stream, or the
/// error of the library that stands for the coder's.
pub open spec fn made(
    gives: Result<Stream, Error>,
    r: Source,
    out: Result<(Source, Stream), XzError>,
) -> bool {
    match gives {
        Ok(stream) => out == Ok::<(Source, Stream), XzError>((r, stream)),
        Err(e) => out == Err::<(Source, Stream), XzError>(XzError::of(e)),
    }
}

/// Source and stream of an encoder that was made, or the error.
pub open spec fn parts_of_encoder(e: Result<XzEncoder, XzError>) -> Result<
    (Source, Stream),
    XzError,
> {
    match e {
        Ok(enc) => Ok((enc.source(), enc.stream())),
        Err(x) => Err(x),
    }
}

/// Source and stream of a decoder that was made, or the error.
pub open spec fn parts_of_decoder(d: Result<XzDecoder, XzError>) -> Result<
    (Source, Stream),
    XzError,
> {
    match d {
        Ok(dec) => Ok((dec.source(), dec.stream())),
        Err(x) => Err(x),
    }
}

/// An xz encoder, or compressor.
///
/// It reads uncompressed data from a source and hands out the stream of
/// compressed data.
pub struct XzEncoder {
    obj: Source,
    data: Stream,
}

/// An xz decoder, or decompressor.
///
/// It takes a stream of compressed data from a source and hands out the
/// decompressed data.
pub struct XzDecoder {
    obj: Source,
    data: Stream,
}

impl XzEncoder {
    /// The source that the encoder reads from.
    pub closed spec fn source(&self) -> Source {
        self.obj
    }

    /// The state of the coder.
    pub closed spec fn stream(&self) -> Stream {
        self.data
    }

    /// Creates a new encoder which will read uncompressed data from the
    /// given source and emit the compressed stream.
    ///
    /// The `level` argument here is typically 0-9 with 6 being a good
    /// default. Where the coder refuses the level, its error comes back.
    pub fn new(r: Source, level: u32) -> (e: Result<XzEncoder, XzError>)
        ensures
            made(easy_encoder_gives(level, Check::Crc64), r, parts_of_encoder(e)),
            e matches Ok(enc) ==> enc.source() == r && consumed_by(enc.stream()) == 0
                && produced_by(enc.stream()) == 0,
    {
        match Stream::new_easy_encoder(level, Check::Crc64) {
            Ok(stream) => Ok(XzEncoder::new_stream(r, stream)),
            Err(e) => Err(XzError::from_stream(e)),
        }
    }

    /// Creates a new encoder with a custom `Stream`.
    pub fn new_stream(r: Source, stream: Stream) -> (e: XzEncoder)
        ensures
            e.source() == r,
            e.stream() == stream,
    {
        XzEncoder { obj: r, data: stream }
    }

    /// Acquires a reference to the underlying source.
    pub fn get_ref(&self) -> (r: &Source)
        ensures
            *r == self.source(),
    {
        &self.obj
    }

    /// Acquires a mutable reference to the underlying source.
    ///
    /// Note that mutation of the source may result in surprising results if
    /// this encoder is continued to be used.
    pub fn get_mut(&mut self) -> (r: &mut Source)
        ensures
            *r == old(self).source(),
            final(self).source() == *final(r),
            final(self).stream() == old(self).stream(),
    {
        &mut self.obj
    }

    /// Consumes this encoder, returning the underlying source.
    pub fn into_inner(self) -> (r: Source)
        ensures
            r == self.source(),
    {
        self.obj
    }

    /// Returns the number of bytes produced by the compressor (e.g. the
    /// number of bytes read from this stream).
    pub fn total_out(&self) -> (r: u64)
        ensures
            r == produced_by(self.stream()),
    {
        self.data.total_out()
    }

    /// Returns the number of bytes consumed by the compressor (e.g. the
    /// number of bytes read from the underlying source).
    pub fn total_in(&self) -> (r: u64)
        ensures
            r == consumed_by(self.stream()),
    {
        self.data.total_in()
    }

    /// Reads compressed bytes into `buf`.
    ///
    /// The coder is run over what is left of the source, and told to finish
    /// once nothing is left, until it has produced something. The count of
    /// bytes written to the front of `buf` comes back; zero for a buffer
    /// with room means that the compressed stream is complete. The source
    /// advances by what the coder consumed. An error of the coder ends the
    /// call with that error.
    pub fn read(&mut self, buf: &mut [u8]) -> (r: Result<usize, XzError>)
        ensures
            reads(
                (old(self).source(), old(self).stream()),
                (final(self).source(), final(self).stream()),
                old(buf)@.len(),
                Action::Finish,
                r,
                final(buf)@,
            ),
            final(buf)@.len() == old(buf)@.len(),
            final(self).source().data == old(self).source().data,
            old(self).source().pos <= final(self).source().pos,
            consumed_by(old(self).stream()) <= consumed_by(final(self).stream()),
            produced_by(old(self).stream()) <= produced_by(final(self).stream()),
            r matches Ok(n) ==> {
                &&& n <= old(buf)@.len()
                &&& produced_by(final(self).stream()) == produced_by(old(self).stream()) + n
                &&& consumed_by(final(self).stream()) - consumed_by(old(self).stream())
                    == final(self).source().pos - old(self).source().pos
                &&& (n == 0 && old(buf)@.len() > 0 ==> final(self).source().rest().len() == 0)
            },
    {
        pump(&mut self.obj, &mut self.data, buf, Action::Finish)
    }
}

impl XzDecoder {
    /// The source that the decoder reads from.
    pub closed spec fn source(&self) -> Source {
        self.obj
    }

    /// The state of the coder.
    pub closed spec fn stream(&self) -> Stream {
        self.data
    }

    /// Creates a new decoder which will decompress data read from the given
    /// source. Where the coder cannot be set up, its error comes back.
    pub fn new(r: Source) -> (d: Result<XzDecoder, XzError>)
        ensures
            made(stream_decoder_gives(u64::MAX, 0), r, parts_of_decoder(d)),
            d matches Ok(dec) ==> dec.source() == r && consumed_by(dec.stream()) == 0
                && produced_by(dec.stream()) == 0,
    {
        match Stream::new_stream_decoder(u64::MAX, 0) {
            Ok(stream) => Ok(XzDecoder::new_stream(r, stream)),
            Err(e) => Err(XzError::from_stream(e)),
        }
    }

    /// Creates a new decoder with a custom `Stream`.
    pub fn new_stream(r: Source, stream: Stream) -> (d: XzDecoder)
        ensures
            d.source() == r,
            d.stream() == stream,
    {
        XzDecoder { obj: r, data: stream }
    }

    /// Acquires a reference to the underlying source.
    pub fn get_ref(&self) -> (r: &Source)
        ensures
            *r == self.source(),
    {
        &self.obj
    }

    /// Acquires a mutable reference to the underlying source.
    ///
    /// Note that mutation of the source may result in surprising results if
    /// this decoder is continued to be used.
    pub fn get_mut(&mut self) -> (r: &mut Source)
        ensures
            *r == old(self).source(),
            final(self).source() == *final(r),
            final(self).stream() == old(self).stream(),
    {
        &mut self.obj
    }

    /// Consumes this decoder, returning the underlying source.
    pub fn into_inner(self) -> (r: Source)
        ensures
            r == self.source(),
    {
        self.obj
    }

    /// Returns the number of bytes that the decompressor has consumed.
    ///
    /// Note that this will likely be smaller than what the source holds.
    pub fn total_in(&self) -> (r: u64)
        ensures
            r == consumed_by(self.stream()),
    {
        self.data.total_in()
    }

    /// Returns the number of bytes that the decompressor has produced.
    pub fn total_out(&self) -> (r: u64)
        ensures
            r == produced_by(self.stream()),
    {
        self.data.total_out()
    }

    /// Reads decompressed bytes into `buf`.
    ///
    /// The coder is run over what is left of the source until it has
    /// produced something. The count of bytes written to the front of `buf`
    /// comes back; zero for a buffer with room means that the source is
    /// used up and the coder has seen the end of the stream. The source
    /// advances by what the coder consumed. An error of the coder, such as
    /// corrupt data, ends the call with that error, and a source that is
    /// used up before the stream ends with `Truncated`.
    pub fn read(&mut self, buf: &mut [u8]) -> (r: Result<usize, XzError>)
        ensures
            reads(
                (old(self).source(), old(self).stream()),
                (final(self).source(), final(self).stream()),
                old(buf)@.len(),
                Action::Run,
                r,
                final(buf)@,
            ),
            final(buf)@.len() == old(buf)@.len(),
            final(self).source().data == old(self).source().data,
            old(self).source().pos <= final(self).source().pos,
            consumed_by(old(self).stream()) <= consumed_by(final(self).stream()),
            produced_by(old(self).stream()) <= produced_by(final(self).stream()),
            r matches Ok(n) ==> {
                &&& n <= old(buf)@.len()
                &&& produced_by(final(self).stream()) == produced_by(old(self).stream()) + n
                &&& consumed_by(final(self).stream()) - consumed_by(old(self).stream())
                    == final(self).source().pos - old(self).source().pos
                &&& (n == 0 && old(buf)@.len() > 0 ==> final(self).source().rest().len() == 0)
            },
    {
        pump(&mut self.obj, &mut self.data, buf, Action::Run)
    }
}

} // verus!
