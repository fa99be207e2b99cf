//! One compressor and one decompressor over all the codecs.
//!
//! A `Comp` takes bytes and, once finished, gives back a byte vector with
//! the compressed stream appended. A `Decomp` is made over the bytes of a
//! stream and hands out the data inside. Which codec does the work is
//! decided once, when the handle is made, from a `Format`; every call after
//! that is one match on the variant.

use crate::bytes::append;
use crate::codec::{
    br_decoder, br_encoder, br_encoder_from_params, br_finish, br_finish_gives, br_fresh,
    br_fresh_from, br_read, br_read_gives, br_read_leaves, br_reader, br_write, br_write_gives,
    br_write_leaves, bz_decoder, bz_encoder, bz_finish, bz_finish_gives, bz_fresh, bz_read,
    bz_read_gives, bz_read_leaves, bz_reader, bz_write, bz_write_gives, bz_write_leaves,
    lz4_decoder, lz4_decoder_gives, lz4_encoder, lz4_encoder_gives, lz4_finish,
    lz4_finish_gives, lz4_read, lz4_read_gives, lz4_read_leaves, lz4_write, lz4_write_gives,
    lz4_write_leaves, sz_decoder, sz_encoder, sz_finish, sz_finish_gives, sz_read,
    sz_read_gives, sz_read_leaves, sz_reader, sz_write, sz_write_gives, sz_write_leaves,
    xz_encoder, xz_finish, xz_finish_gives, xz_fresh, xz_write, xz_write_gives,
    xz_write_leaves, zst_decoder, zst_decoder_gives, zst_encoder, zst_encoder_gives,
    zst_finish, zst_finish_gives, zst_read, zst_read_gives, zst_read_leaves, zst_write,
    zst_write_gives, zst_write_leaves, BrReader, BrWriter, BzReader, BzWriter, Lz4Reader,
    Lz4Writer, SzReader, SzWriter, XzWriter, ZstReader, ZstWriter,
};
use crate::gz::crc::{trailer_holds, trailer_of, GzError};
use crate::gz::header::{header_bytes, parse_header, HeaderFields, OS_UNKNOWN};
use crate::gz::laws::lemma_written_stream_opens;
use crate::gz::read::DecoderReader;
use crate::gz::stream::{
    deflater_finish_gives, deflater_made, deflater_write_gives, deflater_write_leaves, rest_from,
};
use crate::gz::write::{lemma_finished_stream_is_framed, EncoderWriter};
use crate::header::{
    lemma_sniff_reads_sixteen_bytes, sniff, what_format, BrMode, BrotliSetup, Format, Lz4BMode,
    Lz4BSize, Lz4Checksum, Lz4Setup, Quality, QualityError, SNIFF_LEN,
};
use crate::source::Source;
use crate::xz::bufread::{reads, XzError};
use crate::xz::stream::{easy_encoder_gives, stream_decoder_gives};
use crate::xz::read::XzDecoder;
use vstd::prelude::*;
use vstd::slice::slice_subrange;
use xz2::stream::{Action, Check, Stream};

verus! {

/// The codecs that do the work.
#[derive(Clone, Copy, Debug, PartialEq, Eq, Structural)]
pub enum Codec {
    Bzip2,
    Snap,
    Gzip,
    Brotli,
    Zstd,
    Lz4,
    Xz,
    /// No compression: bytes pass through unchanged.
    Tar,
}

/// Why a compressor or decompressor could not be made or went wrong.
#[derive(Debug)]
pub enum CompError {
    /// The format is known but there is no codec for it.
    Unsupported(Format),
    /// The first bytes of the stream announce no known format.
    Unknown,
    /// The effort selector holds a value outside the range of its codec.
    Quality(QualityError),
    /// The gzip stream is damaged.
    Gz(GzError),
    /// The xz coder reported an error.
    Xz(XzError),
    /// A codec reported an error; this is the error.
    Codec(std::io::Error),
    /// The codec could not end its stream; this is its error and the sink
    /// with all that was written before.
    Unfinished(std::io::Error, Vec<u8>),
}

/// What a call of a codec gives where it succeeds.
pub open spec fn ok_of<T>(r: Result<T, std::io::Error>) -> Option<T> {
    match r {
        Ok(x) => Some(x),
        Err(_) => None,
    }
}

/// Whether `e` is the error that stands for a call of a codec that came to
/// `r`: the call failed, and `e` carries its error.
pub open spec fn carries<T>(r: Result<T, std::io::Error>, e: CompError) -> bool {
    match (r, e) {
        (Err(x), CompError::Codec(y)) => x == y,
        _ => false,
    }
}

/// The codec that compresses for a format, if there is one.
pub open spec fn encoder_for(f: Format) -> Option<Codec> {
    match f {
        Format::Bzip2(_) => Some(Codec::Bzip2),
        Format::Gzip(_) => Some(Codec::Gzip),
        Format::Snappy(_) => Some(Codec::Snap),
        Format::Brotli(_) => Some(Codec::Brotli),
        Format::Zstd(_) => Some(Codec::Zstd),
        Format::Lz4(_) => Some(Codec::Lz4),
        Format::Xz(_) => Some(Codec::Xz),
        Format::Tar(_) => Some(Codec::Tar),
        Format::Zip7(_) => None,
        Format::LZW(_) => None,
        Format::LZH(_) => None,
    }
}

/// The codec that decompresses a format, if there is one.
pub open spec fn decoder_for(f: Format) -> Option<Codec> {
    match f {
        Format::Zip7(_) => Some(Codec::Xz),
        Format::LZW(_) => None,
        Format::LZH(_) => None,
        _ => encoder_for(f),
    }
}

/// The error in the effort selector of a format, for the codec of that
/// format. Snappy and the plain container take no notice of the selector.
pub open spec fn quality_error(f: Format) -> Option<QualityError> {
    match f {
        Format::Zstd(q) => match q.zstd() {
            Err(e) => Some(e),
            Ok(_) => None,
        },
        Format::Brotli(q) => match q.brotli() {
            Err(e) => Some(e),
            Ok(_) => None,
        },
        Format::Lz4(q) => match q.lz4() {
            Err(e) => Some(e),
            Ok(_) => None,
        },
        _ => None,
    }
}

/// The header of the gzip stream that is written for a format: one
/// without fields, for the effort that the format carries.
pub open spec fn plain_gzip_head(f: Format) -> Seq<u8> {
    header_bytes(
        HeaderFields { extra: None, filename: None, comment: None, mtime: 0 },
        f.spec_quality().gz(),
        OS_UNKNOWN,
    )
}

/// A gzip stream that the compressor has finished on an empty sink opens
/// as a gzip stream again: it starts with a header without fields.
pub proof fn lemma_gzip_stream_reopens(f: Format, out: Seq<u8>)
    requires
        plain_gzip_head(f).is_prefix_of(out),
    ensures
        parse_header(out) == Ok::<(HeaderFields, int), GzError>(
            (
                HeaderFields { extra: None, filename: None, comment: None, mtime: 0 },
                plain_gzip_head(f).len() as int,
            ),
        ),
{
    lemma_written_stream_opens(
        HeaderFields { extra: None, filename: None, comment: None, mtime: 0 },
        f.spec_quality().gz(),
        OS_UNKNOWN,
        out,
    );
}

/// The block splitting mode in the terms of the brotli crate, as a
/// mathematical value.
pub open spec fn spec_br_mode(m: BrMode) -> brotli2::CompressMode {
    match m {
        BrMode::Generic => brotli2::CompressMode::Generic,
        BrMode::Text => brotli2::CompressMode::Text,
        BrMode::Font => brotli2::CompressMode::Font,
    }
}

/// The lz4 encoder that is made for a setup, or the error with which the
/// codec refuses.
pub open spec fn lz4_made(p: Lz4Setup) -> Result<Lz4Writer, std::io::Error> {
    lz4_encoder_gives(
        match p.block_size {
            Lz4BSize::Default => lz4::BlockSize::Default,
            Lz4BSize::Max64KB => lz4::BlockSize::Max64KB,
            Lz4BSize::Max256KB => lz4::BlockSize::Max256KB,
            Lz4BSize::Max1MB => lz4::BlockSize::Max1MB,
            Lz4BSize::Max4MB => lz4::BlockSize::Max4MB,
        },
        match p.block_mode {
            Lz4BMode::Linked => lz4::BlockMode::Linked,
            Lz4BMode::Independent => lz4::BlockMode::Independent,
        },
        match p.checksum {
            Lz4Checksum::NoChecksum => lz4::ContentChecksum::NoChecksum,
            Lz4Checksum::ChecksumEnabled => lz4::ContentChecksum::ChecksumEnabled,
        },
        p.level,
    )
}

/// The block splitting mode in the terms of the brotli crate.
pub fn br_mode(m: BrMode) -> (r: brotli2::CompressMode)
    ensures
        r == match m {
            BrMode::Generic => brotli2::CompressMode::Generic,
            BrMode::Text => brotli2::CompressMode::Text,
            BrMode::Font => brotli2::CompressMode::Font,
        },
{
    match m {
        BrMode::Generic => brotli2::CompressMode::Generic,
        BrMode::Text => brotli2::CompressMode::Text,
        BrMode::Font => brotli2::CompressMode::Font,
    }
}

/// The block size in the terms of the lz4 crate.
pub fn lz4_block_size(b: Lz4BSize) -> (r: lz4::BlockSize)
    ensures
        r == match b {
            Lz4BSize::Default => lz4::BlockSize::Default,
            Lz4BSize::Max64KB => lz4::BlockSize::Max64KB,
            Lz4BSize::Max256KB => lz4::BlockSize::Max256KB,
            Lz4BSize::Max1MB => lz4::BlockSize::Max1MB,
            Lz4BSize::Max4MB => lz4::BlockSize::Max4MB,
        },
{
    match b {
        Lz4BSize::Default => lz4::BlockSize::Default,
        Lz4BSize::Max64KB => lz4::BlockSize::Max64KB,
        Lz4BSize::Max256KB => lz4::BlockSize::Max256KB,
        Lz4BSize::Max1MB => lz4::BlockSize::Max1MB,
        Lz4BSize::Max4MB => lz4::BlockSize::Max4MB,
    }
}

/// The block mode in the terms of the lz4 crate.
pub fn lz4_block_mode(b: Lz4BMode) -> (r: lz4::BlockMode)
    ensures
        r == match b {
            Lz4BMode::Linked => lz4::BlockMode::Linked,
            Lz4BMode::Independent => lz4::BlockMode::Independent,
        },
{
    match b {
        Lz4BMode::Linked => lz4::BlockMode::Linked,
        Lz4BMode::Independent => lz4::BlockMode::Independent,
    }
}

/// The checksum choice in the terms of the lz4 crate.
pub fn lz4_checksum(c: Lz4Checksum) -> (r: lz4::ContentChecksum)
    ensures
        r == match c {
            Lz4Checksum::NoChecksum => lz4::ContentChecksum::NoChecksum,
            Lz4Checksum::ChecksumEnabled => lz4::ContentChecksum::ChecksumEnabled,
        },
{
    match c {
        Lz4Checksum::NoChecksum => lz4::ContentChecksum::NoChecksum,
        Lz4Checksum::ChecksumEnabled => lz4::ContentChecksum::ChecksumEnabled,
    }
}

/// Compressor.
///
/// Every variant but two holds the bytes that the sink held at first, the
/// handle of its codec, and, for the proofs, the data accepted so far. The
/// gzip encoder keeps all three itself. The plain container keeps what the
/// sink held at first and the data written since.
pub enum Comp {
    Bzip2(Vec<u8>, BzWriter, Ghost<Seq<u8>>),
    Snap(Vec<u8>, SzWriter, Ghost<Seq<u8>>),
    Gzip(EncoderWriter),
    Brotli(Vec<u8>, BrWriter, Ghost<Seq<u8>>),
    Zstd(Vec<u8>, ZstWriter, Ghost<Seq<u8>>),
    Lz4(Vec<u8>, Lz4Writer, Ghost<Seq<u8>>),
    Xz(Vec<u8>, XzWriter, Ghost<Seq<u8>>),
    Tar(Vec<u8>, Vec<u8>),
}

/// The format `f` with its effort set to the default.
pub open spec fn at_default(f: Format) -> Format {
    match f {
        Format::LZW(_) => Format::LZW(Quality::Default),
        Format::LZH(_) => Format::LZH(Quality::Default),
        Format::Gzip(_) => Format::Gzip(Quality::Default),
        Format::Zip7(_) => Format::Zip7(Quality::Default),
        Format::Bzip2(_) => Format::Bzip2(Quality::Default),
        Format::Xz(_) => Format::Xz(Quality::Default),
        Format::Tar(_) => Format::Tar(Quality::Default),
        Format::Brotli(_) => Format::Brotli(Quality::Default),
        Format::Lz4(_) => Format::Lz4(Quality::Default),
        Format::Snappy(_) => Format::Snappy(Quality::Default),
        Format::Zstd(_) => Format::Zstd(Quality::Default),
    }
}

impl Comp {
    /// The codec that does the work.
    pub open spec fn kind(&self) -> Codec {
        match self {
            Comp::Bzip2(..) => Codec::Bzip2,
            Comp::Snap(..) => Codec::Snap,
            Comp::Gzip(..) => Codec::Gzip,
            Comp::Brotli(..) => Codec::Brotli,
            Comp::Zstd(..) => Codec::Zstd,
            Comp::Lz4(..) => Codec::Lz4,
            Comp::Xz(..) => Codec::Xz,
            Comp::Tar(..) => Codec::Tar,
        }
    }

    /// What the sink held when the compressor was made.
    pub open spec fn base(&self) -> Seq<u8> {
        match self {
            Comp::Bzip2(base, _, _) => base@,
            Comp::Snap(base, _, _) => base@,
            Comp::Gzip(e) => e.base(),
            Comp::Brotli(base, _, _) => base@,
            Comp::Zstd(base, _, _) => base@,
            Comp::Lz4(base, _, _) => base@,
            Comp::Xz(base, _, _) => base@,
            Comp::Tar(base, _) => base@,
        }
    }

    /// The data accepted so far.
    pub open spec fn taken(&self) -> Seq<u8> {
        match self {
            Comp::Bzip2(_, _, taken) => taken@,
            Comp::Snap(_, _, taken) => taken@,
            Comp::Gzip(e) => e.taken(),
            Comp::Brotli(_, _, taken) => taken@,
            Comp::Zstd(_, _, taken) => taken@,
            Comp::Lz4(_, _, taken) => taken@,
            Comp::Xz(_, _, taken) => taken@,
            Comp::Tar(_, data) => data@,
        }
    }

    /// The header of the gzip stream, for the gzip variant.
    pub open spec fn gzip_head(&self) -> Seq<u8> {
        match self {
            Comp::Gzip(e) => e.head(),
            _ => Seq::empty(),
        }
    }

    /// The count of bytes that a call of `write` takes of `buf`, or `None`
    /// where it fails: what the codec of the variant makes of the call. The
    /// plain container takes everything.
    pub open spec fn write_gives(&self, buf: Seq<u8>) -> Option<nat> {
        match self {
            Comp::Bzip2(_, c, _) => ok_of(bz_write_gives(*c, buf)),
            Comp::Snap(_, c, _) => ok_of(sz_write_gives(*c, buf)),
            Comp::Brotli(_, c, _) => ok_of(br_write_gives(*c, buf)),
            Comp::Zstd(_, c, _) => ok_of(zst_write_gives(*c, buf)),
            Comp::Lz4(_, c, _) => ok_of(lz4_write_gives(*c, buf)),
            Comp::Xz(_, c, _) => ok_of(xz_write_gives(*c, buf)),
            Comp::Gzip(e) => ok_of(deflater_write_gives(e.coder(), buf)),
            Comp::Tar(_, _) => Some(buf.len()),
        }
    }

    /// Whether `after` is what a call of `write` with `buf` makes of this
    /// compressor: the same variant over the same sink, the codec left as
    /// the call leaves it, and the bytes taken part of the data.
    pub open spec fn wrote(&self, after: Comp, buf: Seq<u8>) -> bool {
        let accepted = match self.write_gives(buf) {
            Some(n) => buf.take(n as int),
            None => Seq::empty(),
        };
        match (self, after) {
            (Comp::Bzip2(b, c, t), Comp::Bzip2(b2, c2, t2)) => {
                &&& b2@ == b@
                &&& c2 == bz_write_leaves(*c, buf)
                &&& t2@ == t@ + accepted
            },
            (Comp::Snap(b, c, t), Comp::Snap(b2, c2, t2)) => {
                &&& b2@ == b@
                &&& c2 == sz_write_leaves(*c, buf)
                &&& t2@ == t@ + accepted
            },
            (Comp::Brotli(b, c, t), Comp::Brotli(b2, c2, t2)) => {
                &&& b2@ == b@
                &&& c2 == br_write_leaves(*c, buf)
                &&& t2@ == t@ + accepted
            },
            (Comp::Zstd(b, c, t), Comp::Zstd(b2, c2, t2)) => {
                &&& b2@ == b@
                &&& c2 == zst_write_leaves(*c, buf)
                &&& t2@ == t@ + accepted
            },
            (Comp::Lz4(b, c, t), Comp::Lz4(b2, c2, t2)) => {
                &&& b2@ == b@
                &&& c2 == lz4_write_leaves(*c, buf)
                &&& t2@ == t@ + accepted
            },
            (Comp::Xz(b, c, t), Comp::Xz(b2, c2, t2)) => {
                &&& b2@ == b@
                &&& c2 == xz_write_leaves(*c, buf)
                &&& t2@ == t@ + accepted
            },
            (Comp::Gzip(e), Comp::Gzip(e2)) => {
                &&& e2.coder() == deflater_write_leaves(e.coder(), buf)
                &&& e2.base() == e.base()
                &&& e2.head() == e.head()
                &&& e2.taken() == e.taken() + accepted
            },
            (Comp::Tar(b, d), Comp::Tar(b2, d2)) => b2@ == b@ && d2@ == d@ + buf,
            _ => false,
        }
    }

    /// The bytes that `finish` hands back, or `None` where it fails: what
    /// the sink held at first, then the stream that the codec of the variant
    /// hands out when it is finished. The plain container hands back the data
    /// as it was written.
    pub open spec fn finish_gives(&self) -> Option<Seq<u8>> {
        match self {
            Comp::Bzip2(b, c, _) => match bz_finish_gives(*c) {
                Ok(packed) => Some(b@ + packed),
                Err(_) => None,
            },
            Comp::Snap(b, c, _) => match sz_finish_gives(*c) {
                Ok(packed) => Some(b@ + packed),
                Err(_) => None,
            },
            Comp::Brotli(b, c, _) => match br_finish_gives(*c) {
                Ok(packed) => Some(b@ + packed),
                Err(_) => None,
            },
            Comp::Zstd(b, c, _) => match zst_finish_gives(*c) {
                Ok(packed) => Some(b@ + packed),
                Err(_) => None,
            },
            Comp::Xz(b, c, _) => match xz_finish_gives(*c) {
                Ok(packed) => Some(b@ + packed),
                Err(_) => None,
            },
            Comp::Lz4(b, c, _) => if lz4_finish_gives(*c).1 is Ok {
                Some(b@ + lz4_finish_gives(*c).0)
            } else {
                None
            },
            Comp::Gzip(e) => e.finished(),
            Comp::Tar(b, d) => Some(b@ + d@),
        }
    }

    /// Whether `e` is the error with which `finish` fails for this
    /// compressor: it carries the error of the codec. Where lz4 cannot end
    /// its frame, it also carries the sink with all that the codec has
    /// written. For gzip it says that the deflate data could not be made.
    /// The plain container does not fail.
    pub open spec fn finish_fails(&self, e: CompError) -> bool {
        match self {
            Comp::Bzip2(_, c, _) => carries(bz_finish_gives(*c), e),
            Comp::Snap(_, c, _) => carries(sz_finish_gives(*c), e),
            Comp::Brotli(_, c, _) => carries(br_finish_gives(*c), e),
            Comp::Zstd(_, c, _) => carries(zst_finish_gives(*c), e),
            Comp::Xz(_, c, _) => carries(xz_finish_gives(*c), e),
            Comp::Lz4(b, c, _) => match e {
                CompError::Unfinished(x, sink) => sink@ == b@ + lz4_finish_gives(*c).0
                    && lz4_finish_gives(*c).1 == Err::<(), std::io::Error>(x),
                _ => false,
            },
            Comp::Gzip(g) => g.finished() is None && e matches CompError::Gz(GzError::Deflate),
            Comp::Tar(_, _) => false,
        }
    }

    /// Whether `e` is the error with which `write` fails for this
    /// compressor and the buffer `buf`: it carries the error of the codec.
    /// For gzip it says that the deflate data could not be made. The plain
    /// container does not fail.
    pub open spec fn write_fails(&self, buf: Seq<u8>, e: CompError) -> bool {
        match self {
            Comp::Bzip2(_, c, _) => carries(bz_write_gives(*c, buf), e),
            Comp::Snap(_, c, _) => carries(sz_write_gives(*c, buf), e),
            Comp::Brotli(_, c, _) => carries(br_write_gives(*c, buf), e),
            Comp::Zstd(_, c, _) => carries(zst_write_gives(*c, buf), e),
            Comp::Lz4(_, c, _) => carries(lz4_write_gives(*c, buf), e),
            Comp::Xz(_, c, _) => carries(xz_write_gives(*c, buf), e),
            Comp::Gzip(g) => deflater_write_gives(g.coder(), buf) is Err
                && e matches CompError::Gz(GzError::Deflate),
            Comp::Tar(_, _) => false,
        }
    }

    /// Whether `c` is the compressor that is made for the format `f`: the
    /// codec is the one that its crate makes for the parameters to which the
    /// effort of the format is mapped.
    pub open spec fn starts(f: Format, c: Comp) -> bool {
        match (f, c) {
            (Format::Bzip2(q), Comp::Bzip2(_, codec, _)) => codec == bz_fresh(q.bz().spec_level()),
            (Format::Gzip(q), Comp::Gzip(e)) => e.coder() == deflater_made(q.gz().spec_level()),
            (Format::Snappy(_), Comp::Snap(_, _, _)) => true,
            (Format::Brotli(q), Comp::Brotli(_, codec, _)) => match q.brotli() {
                Ok(BrotliSetup::Level(level)) => codec == br_fresh(level),
                Ok(BrotliSetup::Params(mode, quality, lgwin, lgblock)) => codec == br_fresh_from(
                    spec_br_mode(mode),
                    quality,
                    lgwin,
                    lgblock,
                ),
                Err(_) => false,
            },
            (Format::Zstd(q), Comp::Zstd(_, codec, _)) => q.zstd() is Ok && zst_encoder_gives(
                q.zstd()->Ok_0,
            ) == Ok::<ZstWriter, std::io::Error>(codec),
            (Format::Lz4(q), Comp::Lz4(_, codec, _)) => q.lz4() is Ok && lz4_made(q.lz4()->Ok_0)
                == Ok::<Lz4Writer, std::io::Error>(codec),
            (Format::Xz(q), Comp::Xz(_, codec, _)) => easy_encoder_gives(q.xz(), Check::Crc64)
                is Ok && codec == xz_fresh(easy_encoder_gives(q.xz(), Check::Crc64)->Ok_0),
            (Format::Tar(_), Comp::Tar(_, data)) => data@ == Seq::<u8>::empty(),
            _ => false,
        }
    }

    /// Whether the codec of the format `f` refuses to be set up, which only
    /// zstd, lz4 and xz can.
    pub open spec fn refused(f: Format) -> bool {
        match f {
            Format::Zstd(q) => q.zstd() is Ok && zst_encoder_gives(q.zstd()->Ok_0) is Err,
            Format::Lz4(q) => q.lz4() is Ok && lz4_made(q.lz4()->Ok_0) is Err,
            Format::Xz(q) => easy_encoder_gives(q.xz(), Check::Crc64) is Err,
            _ => false,
        }
    }

    /// Whether `e` is the error with which the codec of the format `f`
    /// refuses to be set up: it carries the error of the codec.
    pub open spec fn refusal(f: Format, e: CompError) -> bool {
        match f {
            Format::Zstd(q) => q.zstd() is Ok && carries(zst_encoder_gives(q.zstd()->Ok_0), e),
            Format::Lz4(q) => q.lz4() is Ok && carries(lz4_made(q.lz4()->Ok_0), e),
            Format::Xz(q) => match (easy_encoder_gives(q.xz(), Check::Crc64), e) {
                (Err(x), CompError::Xz(y)) => y == XzError::of(x),
                _ => false,
            },
            _ => false,
        }
    }

    /// Makes the compressor for a format, over a sink.
    ///
    /// A format without a codec is refused as unsupported, and an effort
    /// selector out of the range of its codec as a quality error, before
    /// any codec is touched. Otherwise the compressor is made for the codec
    /// of the format, unless the codec itself refuses, which only zstd, lz4
    /// and xz can.
    pub fn from_format(f: Format, w: Vec<u8>) -> (r: Result<Comp, CompError>)
        ensures
            match r {
                Ok(c) => encoder_for(f) == Some(c.kind()) && quality_error(f) is None && c.base()
                    == w@ && c.taken() == Seq::<u8>::empty(),
                Err(CompError::Unsupported(g)) => encoder_for(f) is None && g == f,
                Err(CompError::Quality(e)) => encoder_for(f) is Some && quality_error(f) == Some(
                    e,
                ),
                Err(e) => quality_error(f) is None && Comp::refusal(f, e),
            },
            encoder_for(f) is None ==> r is Err,
            quality_error(f) is Some ==> r is Err,
            (f is Bzip2 || f is Gzip || f is Snappy || f is Tar) ==> r is Ok,
            f is Brotli && quality_error(f) is None ==> r is Ok,
            f is Gzip ==> r is Ok && r->Ok_0.gzip_head() == plain_gzip_head(f),
            r matches Ok(c) ==> Comp::starts(f, c),
            r is Ok <==> encoder_for(f) is Some && quality_error(f) is None && !Comp::refused(f),
    {
        match f {
            Format::Bzip2(q) => Ok(
                Comp::Bzip2(w, bz_encoder(q.into_bz().level()), Ghost(Seq::empty())),
            ),
            Format::Gzip(q) => Ok(Comp::Gzip(EncoderWriter::new(w, q.into_gz()))),
            Format::Snappy(_) => Ok(Comp::Snap(w, sz_encoder(), Ghost(Seq::empty()))),
            Format::Brotli(q) => match q.into_brotli() {
                Err(e) => Err(CompError::Quality(e)),
                Ok(BrotliSetup::Level(level)) => Ok(
                    Comp::Brotli(w, br_encoder(level), Ghost(Seq::empty())),
                ),
                Ok(BrotliSetup::Params(mode, quality, lgwin, lgblock)) => Ok(
                    Comp::Brotli(
                        w,
                        br_encoder_from_params(br_mode(mode), quality, lgwin, lgblock),
                        Ghost(Seq::empty()),
                    ),
                ),
            },
            Format::Zstd(q) => match q.into_zstd() {
                Err(e) => Err(CompError::Quality(e)),
                Ok(level) => match zst_encoder(level) {
                    Ok(enc) => Ok(Comp::Zstd(w, enc, Ghost(Seq::empty()))),
                    Err(e) => Err(CompError::Codec(e)),
                },
            },
            Format::Lz4(q) => match q.into_lz4() {
                Err(e) => Err(CompError::Quality(e)),
                Ok(p) => match lz4_encoder(
                    lz4_block_size(p.block_size),
                    lz4_block_mode(p.block_mode),
                    lz4_checksum(p.checksum),
                    p.level,
                ) {
                    Ok(enc) => Ok(Comp::Lz4(w, enc, Ghost(Seq::empty()))),
                    Err(e) => Err(CompError::Codec(e)),
                },
            },
            Format::Xz(q) => match Stream::new_easy_encoder(q.into_xz(), Check::Crc64) {
                Ok(stream) => Ok(Comp::Xz(w, xz_encoder(stream), Ghost(Seq::empty()))),
                Err(e) => Err(CompError::Xz(XzError::from_stream(e))),
            },
            Format::Zip7(_) => Err(CompError::Unsupported(f)),
            Format::LZW(_) => Err(CompError::Unsupported(f)),
            Format::LZH(_) => Err(CompError::Unsupported(f)),
            Format::Tar(_) => Ok(Comp::Tar(w, Vec::new())),
        }
    }

    /// Makes the compressor for bzip2, gzip or snappy at default effort,
    /// whatever selector the format carries. These three never refuse; any
    /// other format is refused as unsupported.
    pub fn from(f: Format, w: Vec<u8>) -> (r: Result<Comp, CompError>)
        ensures
            match r {
                Ok(c) => (f is Bzip2 || f is Gzip || f is Snappy) && encoder_for(f) == Some(
                    c.kind(),
                ) && c.base() == w@ && c.taken() == Seq::<u8>::empty(),
                Err(CompError::Unsupported(g)) => !(f is Bzip2 || f is Gzip || f is Snappy) && g
                    == f,
                Err(_) => false,
            },
            f is Gzip ==> r is Ok && r->Ok_0.gzip_head() == plain_gzip_head(
                Format::Gzip(Quality::Default),
            ),
            r matches Ok(c) ==> Comp::starts(at_default(f), c),
    {
        match f {
            Format::Bzip2(_) => Ok(
                Comp::Bzip2(w, bz_encoder(Quality::Default.into_bz().level()), Ghost(Seq::empty())),
            ),
            Format::Gzip(_) => Ok(Comp::Gzip(EncoderWriter::new(w, Quality::Default.into_gz()))),
            Format::Snappy(_) => Ok(Comp::Snap(w, sz_encoder(), Ghost(Seq::empty()))),
            _ => Err(CompError::Unsupported(f)),
        }
    }

    /// Write data to the stream.
    ///
    /// The count of bytes taken from the front of `buf` comes back; they
    /// are part of the data from then on. With an error nothing is taken.
    /// The plain container takes the whole buffer and never fails.
    pub fn write(&mut self, buf: &[u8]) -> (r: Result<usize, CompError>)
        ensures
            match old(self).write_gives(buf@) {
                Some(n) => r == Ok::<usize, CompError>(n as usize),
                None => r is Err,
            },
            old(self).wrote(*final(self), buf@),
            final(self).kind() == old(self).kind(),
            final(self).base() == old(self).base(),
            final(self).gzip_head() == old(self).gzip_head(),
            match r {
                Ok(n) => n <= buf@.len() && final(self).taken() == old(self).taken()
                    + buf@.subrange(0, n as int),
                Err(e) => final(self).taken() == old(self).taken() && old(self).write_fails(
                    buf@,
                    e,
                ),
            },
            old(self).kind() == Codec::Tar ==> r == Ok::<usize, CompError>(buf.len()),
    {
        match self {
            Comp::Xz(_, x, taken) => match xz_write(x, buf) {
                Ok(n) => {
                    proof {
                        *taken = Ghost(taken@ + buf@.subrange(0, n as int));
                    }
                    Ok(n)
                },
                Err(e) => Err(CompError::Codec(e)),
            },
            Comp::Bzip2(_, x, taken) => match bz_write(x, buf) {
                Ok(n) => {
                    proof {
                        *taken = Ghost(taken@ + buf@.subrange(0, n as int));
                    }
                    Ok(n)
                },
                Err(e) => Err(CompError::Codec(e)),
            },
            Comp::Snap(_, x, taken) => match sz_write(x, buf) {
                Ok(n) => {
                    proof {
                        *taken = Ghost(taken@ + buf@.subrange(0, n as int));
                    }
                    Ok(n)
                },
                Err(e) => Err(CompError::Codec(e)),
            },
            Comp::Gzip(x) => match x.write(buf) {
                Ok(n) => Ok(n),
                Err(e) => Err(CompError::Gz(e)),
            },
            Comp::Brotli(_, x, taken) => match br_write(x, buf) {
                Ok(n) => {
                    proof {
                        *taken = Ghost(taken@ + buf@.subrange(0, n as int));
                    }
                    Ok(n)
                },
                Err(e) => Err(CompError::Codec(e)),
            },
            Comp::Zstd(_, x, taken) => match zst_write(x, buf) {
                Ok(n) => {
                    proof {
                        *taken = Ghost(taken@ + buf@.subrange(0, n as int));
                    }
                    Ok(n)
                },
                Err(e) => Err(CompError::Codec(e)),
            },
            Comp::Lz4(_, x, taken) => match lz4_write(x, buf) {
                Ok(n) => {
                    proof {
                        *taken = Ghost(taken@ + buf@.subrange(0, n as int));
                    }
                    Ok(n)
                },
                Err(e) => Err(CompError::Codec(e)),
            },
            Comp::Tar(_, data) => {
                append(data, buf);
                assert(buf@.subrange(0, buf@.len() as int) =~= buf@);
                Ok(buf.len())
            },
        }
    }

    /// This method will always return `Ok(())` and change nothing. To
    /// complete the stream and get the sink back, call `finish`.
    pub fn flush(&mut self) -> (r: Result<(), CompError>)
        ensures
            r is Ok,
            *final(self) == *old(self),
    {
        Ok(())
    }

    /// Complete the compression.
    ///
    /// The codec writes what it still holds and ends its stream, and the
    /// sink comes back: what it held at first, then the compressed stream.
    /// For the plain container that stream is the data as it was written,
    /// and the call cannot fail. For gzip the stream starts with the header
    /// and ends with the trailer of the data. Where lz4 cannot end its
    /// frame, the error carries the sink with all that was written before.
    pub fn finish(self) -> (r: Result<Vec<u8>, CompError>)
        ensures
            match self.finish_gives() {
                Some(out) => r is Ok && r->Ok_0@ == out,
                None => r is Err,
            },
            match r {
                Ok(out) => {
                    &&& self.base().is_prefix_of(out@)
                    &&& (self.kind() == Codec::Tar ==> out@ == self.base() + self.taken())
                    &&& (self.kind() == Codec::Gzip ==> (self.base() + self.gzip_head()).is_prefix_of(
                        out@,
                    ) && trailer_of(self.taken()).is_suffix_of(out@))
                },
                Err(e) => self.finish_fails(e) && (e matches CompError::Unfinished(_, sink)
                    ==> self.base().is_prefix_of(sink@)),
            },
            self.kind() == Codec::Tar ==> r is Ok,
    {
        match self {
            Comp::Gzip(x) => match x.finish() {
                Ok(out) => {
                    proof {
                        lemma_finished_stream_is_framed(
                            out@,
                            x.base(),
                            x.head(),
                            deflater_finish_gives(x.coder())->Ok_0,
                            x.taken(),
                        );
                    }
                    Ok(out)
                },
                Err(e) => Err(CompError::Gz(e)),
            },
            Comp::Snap(base, x, _) => match sz_finish(x) {
                Ok(packed) => Ok(joined(base, packed)),
                Err(e) => Err(CompError::Codec(e)),
            },
            Comp::Bzip2(base, x, _) => match bz_finish(x) {
                Ok(packed) => Ok(joined(base, packed)),
                Err(e) => Err(CompError::Codec(e)),
            },
            Comp::Brotli(base, x, _) => match br_finish(x) {
                Ok(packed) => Ok(joined(base, packed)),
                Err(e) => Err(CompError::Codec(e)),
            },
            Comp::Zstd(base, x, _) => match zst_finish(x) {
                Ok(packed) => Ok(joined(base, packed)),
                Err(e) => Err(CompError::Codec(e)),
            },
            Comp::Lz4(base, x, _) => match lz4_finish(x) {
                (packed, Ok(_)) => Ok(joined(base, packed)),
                (packed, Err(e)) => Err(CompError::Unfinished(e, joined(base, packed))),
            },
            Comp::Xz(base, x, _) => match xz_finish(x) {
                Ok(packed) => Ok(joined(base, packed)),
                Err(e) => Err(CompError::Codec(e)),
            },
            Comp::Tar(base, data) => Ok(joined(base, data)),
        }
    }
}

/// The sink as it was at first with the compressed stream appended.
fn joined(base: Vec<u8>, packed: Vec<u8>) -> (out: Vec<u8>)
    ensures
        out@ == base@ + packed@,
        base@.is_prefix_of(out@),
{
    let mut out = base;
    append(&mut out, packed.as_slice());
    assert(base@ =~= out@.subrange(0, base@.len() as int));
    out
}

/// Finds the format of a stream from its first sixteen bytes, and leaves
/// the source at its start, so whoever decodes the stream sees the bytes that
/// were looked at. `None` is the answer for a stream of no known format.
pub fn from_reader(r: &mut Source) -> (f: Option<Format>)
    ensures
        f == sniff(old(r).data@),
        final(r).data == old(r).data,
        final(r).pos == 0,
{
    r.pos = 0;
    let all = r.fill_buf();
    assert(all@ =~= r.data@);
    let n = if all.len() < SNIFF_LEN {
        all.len()
    } else {
        SNIFF_LEN
    };
    let head = slice_subrange(all, 0, n);
    proof {
        lemma_sniff_reads_sixteen_bytes(all@, SNIFF_LEN as int);
        assert(head@ =~= all@.take(n as int));
    }
    what_format(head)
}

/// Abstraction around several kinds of decompressors.
pub enum Decomp {
    Bzip2(BzReader),
    Snap(SzReader),
    Gzip(DecoderReader),
    Brotli(BrReader),
    Zstd(ZstReader),
    Lz4(Lz4Reader),
    Xz(XzDecoder),
    Tar(Source),
}

impl Decomp {
    /// The codec that does the work.
    pub open spec fn kind(&self) -> Codec {
        match self {
            Decomp::Bzip2(..) => Codec::Bzip2,
            Decomp::Snap(..) => Codec::Snap,
            Decomp::Gzip(..) => Codec::Gzip,
            Decomp::Brotli(..) => Codec::Brotli,
            Decomp::Zstd(..) => Codec::Zstd,
            Decomp::Lz4(..) => Codec::Lz4,
            Decomp::Xz(..) => Codec::Xz,
            Decomp::Tar(..) => Codec::Tar,
        }
    }

    /// What is left to read, for the plain container.
    pub open spec fn plain_rest(&self) -> Seq<u8> {
        match self {
            Decomp::Tar(src) => src.rest(),
            _ => Seq::empty(),
        }
    }

    /// Whether the gzip decoder has reached the end of its data and found
    /// the trailer to belong to what it handed out.
    pub open spec fn gzip_checked(&self) -> bool {
        match self {
            Decomp::Gzip(d) => d.finished(),
            _ => false,
        }
    }

    /// Whether what is left of the input of the gzip decoder starts with
    /// the trailer that belongs to the data handed out.
    pub open spec fn gzip_trailer_held(&self) -> bool {
        match self {
            Decomp::Gzip(d) => trailer_holds(d.rest(), d.produced()),
            _ => false,
        }
    }

    /// Whether a call of `read` that found the decompressor as `self`, left
    /// it as `after`, returned `r` and left `got` in the buffer of `room`
    /// bytes did what the decoder of the variant makes of the call: the bytes
    /// that it gives stand at the front of the buffer and their count comes
    /// back, or the call fails where it fails, with the error of the decoder.
    pub open spec fn did_read(
        self,
        after: Decomp,
        room: nat,
        r: Result<usize, CompError>,
        got: Seq<u8>,
    ) -> bool {
        match (self, after) {
            (Decomp::Bzip2(d), Decomp::Bzip2(d2)) => {
                &&& d2 == bz_read_leaves(d, room)
                &&& match bz_read_gives(d, room) {
                    Ok(bytes) => r == Ok::<usize, CompError>(bytes.len() as usize)
                        && got.subrange(0, bytes.len() as int) == bytes,
                    Err(x) => r matches Err(CompError::Codec(y)) && y == x,
                }
            },
            (Decomp::Snap(d), Decomp::Snap(d2)) => {
                &&& d2 == sz_read_leaves(d, room)
                &&& match sz_read_gives(d, room) {
                    Ok(bytes) => r == Ok::<usize, CompError>(bytes.len() as usize)
                        && got.subrange(0, bytes.len() as int) == bytes,
                    Err(x) => r matches Err(CompError::Codec(y)) && y == x,
                }
            },
            (Decomp::Brotli(d), Decomp::Brotli(d2)) => {
                &&& d2 == br_read_leaves(d, room)
                &&& match br_read_gives(d, room) {
                    Ok(bytes) => r == Ok::<usize, CompError>(bytes.len() as usize)
                        && got.subrange(0, bytes.len() as int) == bytes,
                    Err(x) => r matches Err(CompError::Codec(y)) && y == x,
                }
            },
            (Decomp::Zstd(d), Decomp::Zstd(d2)) => {
                &&& d2 == zst_read_leaves(d, room)
                &&& match zst_read_gives(d, room) {
                    Ok(bytes) => r == Ok::<usize, CompError>(bytes.len() as usize)
                        && got.subrange(0, bytes.len() as int) == bytes,
                    Err(x) => r matches Err(CompError::Codec(y)) && y == x,
                }
            },
            (Decomp::Lz4(d), Decomp::Lz4(d2)) => {
                &&& d2 == lz4_read_leaves(d, room)
                &&& match lz4_read_gives(d, room) {
                    Ok(bytes) => r == Ok::<usize, CompError>(bytes.len() as usize)
                        && got.subrange(0, bytes.len() as int) == bytes,
                    Err(x) => r matches Err(CompError::Codec(y)) && y == x,
                }
            },
            (Decomp::Gzip(d), Decomp::Gzip(d2)) => match r {
                Ok(n) => d.buffered().reads(d2.buffered(), room, Ok(n), got),
                Err(CompError::Gz(e)) => d.buffered().reads(d2.buffered(), room, Err(e), got),
                Err(_) => false,
            },
            (Decomp::Xz(d), Decomp::Xz(d2)) => match r {
                Ok(n) => reads(
                    (d.source(), d.stream()),
                    (d2.source(), d2.stream()),
                    room,
                    Action::Run,
                    Ok(n),
                    got,
                ),
                Err(CompError::Xz(e)) => reads(
                    (d.source(), d.stream()),
                    (d2.source(), d2.stream()),
                    room,
                    Action::Run,
                    Err(e),
                    got,
                ),
                Err(_) => false,
            },
            (Decomp::Tar(src), Decomp::Tar(src2)) => {
                let n = if room <= src.rest().len() {
                    room as int
                } else {
                    src.rest().len() as int
                };
                &&& r == Ok::<usize, CompError>(n as usize)
                &&& got.subrange(0, n) == src.rest().take(n)
                &&& src2.rest() == src.rest().skip(n)
                &&& src2.data == src.data
            },
            _ => false,
        }
    }

    /// Whether `d` is what is made for the format `f` over the bytes `r`:
    /// the decoder that its crate makes over these bytes, or the refusal.
    pub open spec fn opened(f: Format, r: Seq<u8>, d: Result<Decomp, CompError>) -> bool {
        match f {
            Format::Bzip2(_) => d matches Ok(Decomp::Bzip2(x)) && x == bz_reader(r),
            Format::Snappy(_) => d matches Ok(Decomp::Snap(x)) && x == sz_reader(r),
            Format::Brotli(_) => d matches Ok(Decomp::Brotli(x)) && x == br_reader(r),
            Format::Zstd(_) => match zst_decoder_gives(r) {
                Ok(x) => d matches Ok(Decomp::Zstd(y)) && y == x,
                Err(x) => d matches Err(CompError::Codec(y)) && y == x,
            },
            Format::Lz4(_) => match lz4_decoder_gives(r) {
                Ok(x) => d matches Ok(Decomp::Lz4(y)) && y == x,
                Err(x) => d matches Err(CompError::Codec(y)) && y == x,
            },
            Format::Zip7(_) | Format::Xz(_) => match stream_decoder_gives(u64::MAX, 0) {
                Ok(s) => d matches Ok(Decomp::Xz(x)) && x.stream() == s && x.source().data@ == r
                    && x.source().pos == 0,
                Err(e) => d matches Err(CompError::Xz(x)) && x == XzError::of(e),
            },
            Format::Gzip(_) => match parse_header(r) {
                Ok((h, n)) => d matches Ok(Decomp::Gzip(x)) && x.header_fields() == h
                    && x.buffered().opens(r, 0),
                Err(e) => d matches Err(CompError::Gz(x)) && x == e,
            },
            Format::Tar(_) => d matches Ok(Decomp::Tar(src)) && src.data@ == r && src.pos == 0,
            Format::LZW(_) | Format::LZH(_) => d matches Err(CompError::Unsupported(g)) && g == f,
        }
    }

    /// Looks at the first bytes of the stream to determine how to
    /// decompress it.
    ///
    /// Bytes that announce no known format are refused as unknown; they
    /// are never taken for a plain archive. Otherwise the decompressor is
    /// made as for a known format.
    pub fn from_unknown(r: Vec<u8>) -> (d: Result<Decomp, CompError>)
        ensures
            match sniff(r@) {
                None => d matches Err(CompError::Unknown),
                Some(f) => Decomp::made_for(f, r@, d) && Decomp::opened(f, r@, d),
            },
    {
        let mut src = Source::new(r);
        match from_reader(&mut src) {
            None => Err(CompError::Unknown),
            Some(f) => Decomp::from_known(f, src.into_inner()),
        }
    }

    /// What `from_known` hands back for the format `f` and the bytes `r`.
    ///
    /// The legacy formats are refused as unsupported. A gzip stream is
    /// accepted exactly where it starts with a gzip header, and refused
    /// with the error met in the header otherwise. bzip2, snappy, brotli and
    /// the plain container are always accepted; zstd, lz4 and xz unless the
    /// codec refuses.
    pub open spec fn made_for(f: Format, r: Seq<u8>, d: Result<Decomp, CompError>) -> bool {
        &&& match d {
            Ok(dec) => decoder_for(f) == Some(dec.kind()) && (f is Tar ==> dec.plain_rest() == r)
                && (f is Gzip ==> parse_header(r) is Ok),
            Err(CompError::Unsupported(g)) => decoder_for(f) is None && g == f,
            Err(CompError::Gz(e)) => f is Gzip && parse_header(r) == Err::<
                (HeaderFields, int),
                GzError,
            >(e),
            Err(CompError::Codec(_)) => f is Zstd || f is Lz4,
            Err(CompError::Xz(_)) => f is Xz || f is Zip7,
            Err(_) => false,
        }
        &&& (decoder_for(f) is None ==> d is Err)
        &&& (f is Bzip2 || f is Snappy || f is Brotli || f is Tar ==> d is Ok)
        &&& (f is Gzip ==> (d is Ok <==> parse_header(r) is Ok))
    }

    /// You already know what you are decompressing.
    ///
    /// The effort selector of the format is ignored.
    pub fn from_known(f: Format, r: Vec<u8>) -> (d: Result<Decomp, CompError>)
        ensures
            Decomp::opened(f, r@, d),
            Decomp::made_for(f, r@, d),
    {
        match f {
            Format::Bzip2(_) => Ok(Decomp::Bzip2(bz_decoder(r))),
            Format::Snappy(_) => Ok(Decomp::Snap(sz_decoder(r))),
            Format::Gzip(_) => {
                assert(rest_from(r@, 0) =~= r@);
                match DecoderReader::new(r) {
                    Ok(d) => Ok(Decomp::Gzip(d)),
                    Err(e) => Err(CompError::Gz(e)),
                }
            },
            Format::Brotli(_) => Ok(Decomp::Brotli(br_decoder(r))),
            Format::Zstd(_) => match zst_decoder(r) {
                Ok(d) => Ok(Decomp::Zstd(d)),
                Err(e) => Err(CompError::Codec(e)),
            },
            Format::Lz4(_) => match lz4_decoder(r) {
                Ok(d) => Ok(Decomp::Lz4(d)),
                Err(e) => Err(CompError::Codec(e)),
            },
            Format::Zip7(_) | Format::Xz(_) => match XzDecoder::new(r) {
                Ok(d) => Ok(Decomp::Xz(d)),
                Err(e) => Err(CompError::Xz(e)),
            },
            Format::LZW(_) => Err(CompError::Unsupported(f)),
            Format::LZH(_) => Err(CompError::Unsupported(f)),
            Format::Tar(_) => Ok(Decomp::Tar(Source::new(r))),
        }
    }

    /// Reads decompressed bytes into `buf`.
    ///
    /// The count of bytes written to the front of `buf` comes back; zero
    /// for a buffer with room signals the end of the stream. The plain
    /// container hands out the next bytes of its input as they are, as many
    /// as fit, and never fails.
    pub fn read(&mut self, buf: &mut [u8]) -> (r: Result<usize, CompError>)
        ensures
            old(self).did_read(*final(self), old(buf)@.len(), r, final(buf)@),
            final(self).kind() == old(self).kind(),
            final(buf)@.len() == old(buf)@.len(),
            match r {
                Ok(n) => n <= old(buf)@.len(),
                Err(e) => e is Codec || e is Gz || e is Xz,
            },
            old(self).kind() == Codec::Gzip && r == Ok::<usize, CompError>(0) && old(buf)@.len()
                > 0 ==> final(self).gzip_checked(),
            !old(self).gzip_checked() && final(self).gzip_checked()
                ==> final(self).gzip_trailer_held(),
            old(self).kind() == Codec::Tar ==> {
                &&& r is Ok
                &&& r->Ok_0 == if old(buf)@.len() <= old(self).plain_rest().len() {
                    old(buf)@.len()
                } else {
                    old(self).plain_rest().len()
                }
                &&& final(buf)@.subrange(0, r->Ok_0 as int) == old(self).plain_rest().take(
                    r->Ok_0 as int,
                )
                &&& final(self).plain_rest() == old(self).plain_rest().skip(r->Ok_0 as int)
            },
    {
        match self {
            Decomp::Bzip2(x) => match bz_read(x, buf) {
                Ok(n) => Ok(n),
                Err(e) => Err(CompError::Codec(e)),
            },
            Decomp::Snap(x) => match sz_read(x, buf) {
                Ok(n) => Ok(n),
                Err(e) => Err(CompError::Codec(e)),
            },
            Decomp::Gzip(x) => match x.read(buf) {
                Ok(n) => Ok(n),
                Err(e) => Err(CompError::Gz(e)),
            },
            Decomp::Brotli(x) => match br_read(x, buf) {
                Ok(n) => Ok(n),
                Err(e) => Err(CompError::Codec(e)),
            },
            Decomp::Zstd(x) => match zst_read(x, buf) {
                Ok(n) => Ok(n),
                Err(e) => Err(CompError::Codec(e)),
            },
            Decomp::Lz4(x) => match lz4_read(x, buf) {
                Ok(n) => Ok(n),
                Err(e) => Err(CompError::Codec(e)),
            },
            Decomp::Xz(x) => match x.read(buf) {
                Ok(n) => Ok(n),
                Err(e) => Err(CompError::Xz(e)),
            },
            Decomp::Tar(x) => {
                let rest = x.fill_buf();
                let n = if buf.len() <= rest.len() {
                    buf.len()
                } else {
                    rest.len()
                };
                let mut i: usize = 0;
                while i < n
                    invariant
                        i <= n,
                        n <= rest@.len(),
                        n <= buf@.len(),
                        buf@.len() == old(buf)@.len(),
                        forall|j: int| 0 <= j < i ==> buf@[j] == rest@[j],
                    decreases n - i,
                {
                    buf[i] = rest[i];
                    i += 1;
                }
                assert(buf@.subrange(0, n as int) =~= rest@.take(n as int));
                x.consume(n);
                Ok(n)
            },
        }
    }
}

/// The plain container gives back what it was given: a decompressor made
/// over what a compressor without compression handed out, on an empty sink,
/// has exactly the data that was written to the compressor left to read.
pub proof fn lemma_plain_container_round_trips(c: Comp, out: Seq<u8>, d: Decomp)
    requires
        c.kind() == Codec::Tar,
        c.base().len() == 0,
        out == c.base() + c.taken(),
        d.kind() == Codec::Tar,
        d.plain_rest() == out,
    ensures
        d.plain_rest() == c.taken(),
{
    assert(c.base() + c.taken() =~= c.taken());
}

/// Makes the decompressor for bzip2 or snappy, the two that never refuse;
/// any other format is refused as unsupported.
pub fn decomp(f: Format, r: Vec<u8>) -> (d: Result<Decomp, CompError>)
    ensures
        match d {
            Ok(dec) => (f is Bzip2 || f is Snappy) && decoder_for(f) == Some(dec.kind()),
            Err(CompError::Unsupported(g)) => !(f is Bzip2 || f is Snappy) && g == f,
            Err(_) => false,
        },
        f is Bzip2 || f is Snappy ==> Decomp::opened(f, r@, d),
{
    match f {
        Format::Bzip2(_) => Ok(Decomp::Bzip2(bz_decoder(r))),
        Format::Snappy(_) => Ok(Decomp::Snap(sz_decoder(r))),
        _ => Err(CompError::Unsupported(f)),
    }
}

} // verus!
