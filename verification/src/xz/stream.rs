//! What is taken on trust of the raw lzma stream of the `xz2` crate.
//!
//! A `Stream` is the state of one encoder or decoder of liblzma. The bytes
//! it produces are not worked out here: what a run of `process` reports,
//! leaves behind and writes has a name each. What is known beyond the names
//! is the bookkeeping: a stream counts the bytes it has consumed and
//! produced, and one run consumes no more than it is offered and produces no
//! more than there is room for.

use vstd::prelude::*;
use xz2::stream::{Action, Check, Error, Status, Stream};

verus! {

#[verifier::external_type_specification]
#[verifier::external_body]
pub struct ExStream(Stream);

#[verifier::external_type_specification]
pub struct ExStatus(Status);

#[verifier::external_type_specification]
pub struct ExError(Error);

#[verifier::external_type_specification]
pub struct ExAction(Action);

#[verifier::external_type_specification]
pub struct ExCheck(Check);

/// The number of input bytes that a stream has consumed since it was made:
/// what `Stream::total_in` reports.
pub uninterp spec fn consumed_by(s: Stream) -> u64;

/// The number of output bytes that a stream has produced since it was made:
/// what `Stream::total_out` reports.
pub uninterp spec fn produced_by(s: Stream) -> u64;

/// Whether a stream is an encoder that has not been run yet: what
/// `Stream::new_easy_encoder` hands out.
pub uninterp spec fn fresh_encoder(s: Stream) -> bool;

/// What one run of `Stream::process` reports, for a stream in the state `s`
/// that is offered the bytes `input`, room for `room` bytes of output, and
/// the action `action`.
pub uninterp spec fn process_gives(s: Stream, input: Seq<u8>, room: nat, action: Action) -> Result<
    Status,
    Error,
>;

/// The state in which such a run of `Stream::process` leaves the stream.
pub uninterp spec fn process_leaves(s: Stream, input: Seq<u8>, room: nat, action: Action) -> Stream;

/// The bytes that such a run of `Stream::process` writes to the front of the
/// output.
pub uninterp spec fn process_puts(s: Stream, input: Seq<u8>, room: nat, action: Action) -> Seq<u8>;

/// What `Stream::new_easy_encoder` comes to for a preset and an integrity
/// check: the encoder, or the error it refuses with.
pub uninterp spec fn easy_encoder_gives(preset: u32, check: Check) -> Result<Stream, Error>;

/// What `Stream::new_stream_decoder` comes to for a memory limit and flags:
/// the decoder, or the error it refuses with.
pub uninterp spec fn stream_decoder_gives(memlimit: u64, flags: u32) -> Result<Stream, Error>;

/// `Stream::new_easy_encoder` sets up an xz encoder from a preset and an
/// integrity check. What it hands out, or refuses with, depends on these two
/// alone. A stream that it hands out is an encoder that has not been run: it
/// has consumed and produced nothing.
pub assume_specification[ Stream::new_easy_encoder ](preset: u32, check: Check) -> (r: Result<
    Stream,
    Error,
>)
    ensures
        r == easy_encoder_gives(preset, check),
        r matches Ok(s) ==> consumed_by(s) == 0 && produced_by(s) == 0 && fresh_encoder(s),
;

/// `Stream::new_stream_decoder` sets up an xz decoder with a memory limit
/// and flags. What it hands out, or refuses with, depends on these two
/// alone. A stream that it hands out has consumed and produced nothing.
pub assume_specification[ Stream::new_stream_decoder ](memlimit: u64, flags: u32) -> (r: Result<
    Stream,
    Error,
>)
    ensures
        r == stream_decoder_gives(memlimit, flags),
        r matches Ok(s) ==> consumed_by(s) == 0 && produced_by(s) == 0,
;

/// `Stream::total_in` reads the counter of consumed bytes.
pub assume_specification[ Stream::total_in ](s: &Stream) -> (r: u64)
    ensures
        r == consumed_by(*s),
;

/// `Stream::total_out` reads the counter of produced bytes.
pub assume_specification[ Stream::total_out ](s: &Stream) -> (r: u64)
    ensures
        r == produced_by(*s),
;

/// `Stream::process` runs the coder once over `input` and `output`. What it
/// reports, the state it leaves the stream in and the bytes it writes depend
/// on the state of the stream, the input, the room in the output and the
/// action, and on nothing else. The output keeps its length, and the bytes
/// written stand at its front, as many as the counter of produced bytes
/// grows by. The counters never go back, the stream consumes at most
/// `input.len()` bytes and produces at most `output.len()` bytes, whether it
/// reports success or an error.
pub assume_specification[ Stream::process ](
    s: &mut Stream,
    input: &[u8],
    output: &mut [u8],
    action: Action,
) -> (r: Result<Status, Error>)
    ensures
        r == process_gives(*old(s), input@, old(output)@.len(), action),
        *final(s) == process_leaves(*old(s), input@, old(output)@.len(), action),
        final(output)@.len() == old(output)@.len(),
        process_puts(*old(s), input@, old(output)@.len(), action).len() == produced_by(*final(s))
            - produced_by(*old(s)),
        final(output)@.subrange(
            0,
            process_puts(*old(s), input@, old(output)@.len(), action).len() as int,
        ) == process_puts(*old(s), input@, old(output)@.len(), action),
        consumed_by(*old(s)) <= consumed_by(*final(s)) <= consumed_by(*old(s)) + input@.len(),
        produced_by(*old(s)) <= produced_by(*final(s)),
        produced_by(*final(s)) <= produced_by(*old(s)) + old(output)@.len(),
;

} // verus!
