//! Stream formats, their magic numbers, and the compression effort knob.
//!
//! A stream is recognised by a fixed table of byte prefixes. The effort
//! selector [`Quality`] is mapped, codec by codec, to the numbers that the
//! codec's constructor wants.

use vstd::prelude::*;

verus! {

/// Block splitting mode of the brotli encoder.
#[derive(Clone, Copy, Debug, PartialEq, Eq, Structural)]
pub enum BrMode {
    Generic,
    Text,
    Font,
}

/// Largest block of an lz4 frame.
#[derive(Clone, Copy, Debug, PartialEq, Eq, Structural)]
pub enum Lz4BSize {
    Default,
    Max64KB,
    Max256KB,
    Max1MB,
    Max4MB,
}

/// Whether the blocks of an lz4 frame may refer to one another.
#[derive(Clone, Copy, Debug, PartialEq, Eq, Structural)]
pub enum Lz4BMode {
    Linked,
    Independent,
}

/// Whether an lz4 frame ends with a checksum of its content.
#[derive(Clone, Copy, Debug, PartialEq, Eq, Structural)]
pub enum Lz4Checksum {
    NoChecksum,
    ChecksumEnabled,
}

/// Effort of the bzip2 encoder.
#[derive(Clone, Copy, Debug, PartialEq, Eq, Structural)]
pub enum BzQuality {
    Fastest,
    Best,
    Default,
}

impl BzQuality {
    /// The block size level, 1 to 9.
    pub open spec fn spec_level(self) -> u32 {
        match self {
            BzQuality::Fastest => 1,
            BzQuality::Best => 9,
            BzQuality::Default => 6,
        }
    }

    #[verifier::when_used_as_spec(spec_level)]
    pub fn level(self) -> (r: u32)
        ensures
            r == self.spec_level(),
            1 <= r <= 9,
    {
        match self {
            BzQuality::Fastest => 1,
            BzQuality::Best => 9,
            BzQuality::Default => 6,
        }
    }
}

/// Effort of the deflate encoder inside a gzip stream.
#[derive(Clone, Copy, Debug, PartialEq, Eq, Structural)]
pub enum GzQuality {
    Fast,
    Best,
    Default,
}

impl GzQuality {
    /// The deflate level, 0 to 9.
    pub open spec fn spec_level(self) -> u32 {
        match self {
            GzQuality::Fast => 1,
            GzQuality::Best => 9,
            GzQuality::Default => 6,
        }
    }

    #[verifier::when_used_as_spec(spec_level)]
    pub fn level(self) -> (r: u32)
        ensures
            r == self.spec_level(),
            r <= 9,
    {
        match self {
            GzQuality::Fast => 1,
            GzQuality::Best => 9,
            GzQuality::Default => 6,
        }
    }
}

/// What the brotli encoder is built from.
#[derive(Clone, Copy, Debug, PartialEq, Eq, Structural)]
pub enum BrotliSetup {
    /// A quality level alone; everything else as the encoder defaults.
    Level(u32),
    /// Mode, quality, window bits and block bits.
    Params(BrMode, u32, u32, u32),
}

impl BrotliSetup {
    pub open spec fn quality(self) -> u32 {
        match self {
            BrotliSetup::Level(q) => q,
            BrotliSetup::Params(_, q, _, _) => q,
        }
    }
}

/// What the lz4 encoder is built from.
#[derive(Clone, Copy, Debug, PartialEq, Eq, Structural)]
pub struct Lz4Setup {
    pub block_size: Lz4BSize,
    pub block_mode: Lz4BMode,
    pub checksum: Lz4Checksum,
    pub level: u32,
}

/// A codec specific payload that lies outside the codec's range.
#[derive(Clone, Copy, Debug, PartialEq, Eq, Structural)]
pub enum QualityError {
    /// zstd levels run from 1 to 21.
    ZstdLevel(i32),
    /// brotli qualities run from 0 to 11.
    BrotliQuality(u32),
    /// lz4 levels run from 0 to 16.
    Lz4Level(u32),
}

pub const ZSTD_LEVEL_MIN: i32 = 1;

pub const ZSTD_LEVEL_MAX: i32 = 21;

pub const BROTLI_QUALITY_MAX: u32 = 11;

pub const LZ4_LEVEL_MAX: u32 = 16;

/// Describes the ratio/speed trade off.
///
/// | codec  | `FastLow` | `Default` | `SlowHigh` |
/// |--------|-----------|-----------|------------|
/// | gzip   | 1         | 6         | 9          |
/// | bzip2  | 1         | 6         | 9          |
/// | xz     | 0         | 3         | 7          |
/// | zstd   | 1         | 10        | 21         |
/// | brotli | 2         | 5         | 11         |
/// | lz4    | 1         | 0         | 16         |
///
/// Snappy has one mode of operation and takes no notice of the selector.
/// The lz4 level 0 asks the codec for its own default.
#[derive(Clone, Copy, Debug, PartialEq, Eq, Structural)]
pub enum Quality {
    Default,
    FastLow,
    SlowHigh,
    /// Level ranges from 1 to 21.
    ZstdSpecial(i32),
    /// Mode, quality, window bits, block bits. Quality ranges from 0 to 11.
    BrotliSpecial(BrMode, u32, u32, u32),
    /// Block size, block mode, checksum, level. Level ranges from 0 to 16.
    Lz4Special(Lz4BSize, Lz4BMode, Lz4Checksum, u32),
}

impl Quality {
    /// The lz4 construction parameters this selector stands for.
    pub open spec fn lz4(self) -> Result<Lz4Setup, QualityError> {
        match self {
            Quality::FastLow => Ok(
                Lz4Setup {
                    block_size: Lz4BSize::Default,
                    block_mode: Lz4BMode::Linked,
                    checksum: Lz4Checksum::NoChecksum,
                    level: 1,
                },
            ),
            Quality::SlowHigh => Ok(
                Lz4Setup {
                    block_size: Lz4BSize::Max4MB,
                    block_mode: Lz4BMode::Linked,
                    checksum: Lz4Checksum::ChecksumEnabled,
                    level: 16,
                },
            ),
            Quality::Lz4Special(block_size, block_mode, checksum, level) => if level
                <= LZ4_LEVEL_MAX {
                Ok(Lz4Setup { block_size, block_mode, checksum, level })
            } else {
                Err(QualityError::Lz4Level(level))
            },
            _ => Ok(
                Lz4Setup {
                    block_size: Lz4BSize::Default,
                    block_mode: Lz4BMode::Linked,
                    checksum: Lz4Checksum::ChecksumEnabled,
                    level: 0,
                },
            ),
        }
    }

    /// The zstd level this selector stands for.
    pub open spec fn zstd(self) -> Result<i32, QualityError> {
        match self {
            Quality::FastLow => Ok(1),
            Quality::SlowHigh => Ok(21),
            Quality::ZstdSpecial(level) => if ZSTD_LEVEL_MIN <= level <= ZSTD_LEVEL_MAX {
                Ok(level)
            } else {
                Err(QualityError::ZstdLevel(level))
            },
            _ => Ok(10),
        }
    }

    /// The brotli construction parameters this selector stands for.
    pub open spec fn brotli(self) -> Result<BrotliSetup, QualityError> {
        match self {
            Quality::BrotliSpecial(mode, quality, lgwin, lgblock) => if quality
                <= BROTLI_QUALITY_MAX {
                Ok(BrotliSetup::Params(mode, quality, lgwin, lgblock))
            } else {
                Err(QualityError::BrotliQuality(quality))
            },
            Quality::FastLow => Ok(BrotliSetup::Level(2)),
            Quality::SlowHigh => Ok(BrotliSetup::Params(BrMode::Text, 11, 24, 24)),
            _ => Ok(BrotliSetup::Level(5)),
        }
    }

    /// The xz preset this selector stands for.
    pub open spec fn xz(self) -> u32 {
        match self {
            Quality::FastLow => 0,
            Quality::SlowHigh => 7,
            _ => 3,
        }
    }

    /// The bzip2 effort this selector stands for.
    pub open spec fn bz(self) -> BzQuality {
        match self {
            Quality::FastLow => BzQuality::Fastest,
            Quality::SlowHigh => BzQuality::Best,
            _ => BzQuality::Default,
        }
    }

    /// The gzip effort this selector stands for.
    pub open spec fn gz(self) -> GzQuality {
        match self {
            Quality::FastLow => GzQuality::Fast,
            Quality::SlowHigh => GzQuality::Best,
            _ => GzQuality::Default,
        }
    }

    /// Parameters for the lz4 encoder. A level above 16 in an lz4 escape is
    /// refused; every other selector maps to a fixed bundle.
    pub fn into_lz4(self) -> (r: Result<Lz4Setup, QualityError>)
        ensures
            r == self.lz4(),
            r matches Ok(p) ==> p.level <= LZ4_LEVEL_MAX,
    {
        match self {
            Quality::FastLow => Ok(
                Lz4Setup {
                    block_size: Lz4BSize::Default,
                    block_mode: Lz4BMode::Linked,
                    checksum: Lz4Checksum::NoChecksum,
                    level: 1,
                },
            ),
            Quality::SlowHigh => Ok(
                Lz4Setup {
                    block_size: Lz4BSize::Max4MB,
                    block_mode: Lz4BMode::Linked,
                    checksum: Lz4Checksum::ChecksumEnabled,
                    level: 16,
                },
            ),
            Quality::Lz4Special(block_size, block_mode, checksum, level) => {
                if level <= LZ4_LEVEL_MAX {
                    Ok(Lz4Setup { block_size, block_mode, checksum, level })
                } else {
                    Err(QualityError::Lz4Level(level))
                }
            },
            _ => Ok(
                Lz4Setup {
                    block_size: Lz4BSize::Default,
                    block_mode: Lz4BMode::Linked,
                    checksum: Lz4Checksum::ChecksumEnabled,
                    level: 0,
                },
            ),
        }
    }

    /// Level for the zstd encoder. A zstd escape outside 1 to 21 is refused.
    pub fn into_zstd(self) -> (r: Result<i32, QualityError>)
        ensures
            r == self.zstd(),
            r matches Ok(level) ==> ZSTD_LEVEL_MIN <= level <= ZSTD_LEVEL_MAX,
    {
        match self {
            Quality::FastLow => Ok(1),
            Quality::SlowHigh => Ok(21),
            Quality::ZstdSpecial(level) => {
                if ZSTD_LEVEL_MIN <= level && level <= ZSTD_LEVEL_MAX {
                    Ok(level)
                } else {
                    Err(QualityError::ZstdLevel(level))
                }
            },
            _ => Ok(10),
        }
    }

    /// Parameters for the brotli encoder. A brotli escape with a quality
    /// above 11 is refused.
    pub fn into_brotli(self) -> (r: Result<BrotliSetup, QualityError>)
        ensures
            r == self.brotli(),
            r matches Ok(p) ==> p.quality() <= BROTLI_QUALITY_MAX,
    {
        match self {
            Quality::BrotliSpecial(mode, quality, lgwin, lgblock) => {
                if quality <= BROTLI_QUALITY_MAX {
                    Ok(BrotliSetup::Params(mode, quality, lgwin, lgblock))
                } else {
                    Err(QualityError::BrotliQuality(quality))
                }
            },
            Quality::FastLow => Ok(BrotliSetup::Level(2)),
            Quality::SlowHigh => Ok(BrotliSetup::Params(BrMode::Text, 11, 24, 24)),
            _ => Ok(BrotliSetup::Level(5)),
        }
    }

    /// Preset for the xz encoder, 0 to 9.
    pub fn into_xz(self) -> (r: u32)
        ensures
            r == self.xz(),
            r <= 9,
    {
        match self {
            Quality::FastLow => 0,
            Quality::SlowHigh => 7,
            _ => 3,
        }
    }

    /// Effort for the bzip2 encoder.
    pub fn into_bz(self) -> (r: BzQuality)
        ensures
            r == self.bz(),
    {
        match self {
            Quality::FastLow => BzQuality::Fastest,
            Quality::SlowHigh => BzQuality::Best,
            _ => BzQuality::Default,
        }
    }

    /// Effort for the gzip encoder.
    pub fn into_gz(self) -> (r: GzQuality)
        ensures
            r == self.gz(),
    {
        match self {
            Quality::FastLow => GzQuality::Fast,
            Quality::SlowHigh => GzQuality::Best,
            _ => GzQuality::Default,
        }
    }

    /// Whether the payload of an escape lies in its codec's range. The three
    /// plain levels are always in range.
    pub open spec fn in_range(self) -> bool {
        match self {
            Quality::ZstdSpecial(level) => ZSTD_LEVEL_MIN <= level <= ZSTD_LEVEL_MAX,
            Quality::BrotliSpecial(_, quality, _, _) => quality <= BROTLI_QUALITY_MAX,
            Quality::Lz4Special(_, _, _, level) => level <= LZ4_LEVEL_MAX,
            _ => true,
        }
    }
}

impl Default for Quality {
    /// The selector `Quality::Default`.
    fn default() -> (r: Quality)
        ensures
            r == Quality::Default,
    {
        Quality::Default
    }
}

/// Describes the compression algorithm of a stream.
///
/// The tag is either detected from the first bytes of a stream, in which case
/// it carries `Quality::Default`, or chosen by whoever creates an archive.
#[derive(Clone, Copy, Debug, PartialEq, Eq, Structural)]
pub enum Format {
    LZW(Quality),
    LZH(Quality),
    Gzip(Quality),
    Zip7(Quality),
    Bzip2(Quality),
    Xz(Quality),
    Brotli(Quality),
    Lz4(Quality),
    Snappy(Quality),
    Zstd(Quality),
    Tar(Quality),
}

impl Format {
    /// The effort selector that the tag carries.
    pub open spec fn spec_quality(self) -> Quality {
        match self {
            Format::LZW(q) => q,
            Format::LZH(q) => q,
            Format::Gzip(q) => q,
            Format::Zip7(q) => q,
            Format::Bzip2(q) => q,
            Format::Xz(q) => q,
            Format::Brotli(q) => q,
            Format::Lz4(q) => q,
            Format::Snappy(q) => q,
            Format::Zstd(q) => q,
            Format::Tar(q) => q,
        }
    }

    #[verifier::when_used_as_spec(spec_quality)]
    pub fn quality(self) -> (r: Quality)
        ensures
            r == self.spec_quality(),
    {
        match self {
            Format::LZW(q) => q,
            Format::LZH(q) => q,
            Format::Gzip(q) => q,
            Format::Zip7(q) => q,
            Format::Bzip2(q) => q,
            Format::Xz(q) => q,
            Format::Brotli(q) => q,
            Format::Lz4(q) => q,
            Format::Snappy(q) => q,
            Format::Zstd(q) => q,
            Format::Tar(q) => q,
        }
    }

    /// The common file extension of the format, without the dot.
    pub open spec fn extension(self) -> Seq<char> {
        match self {
            Format::LZW(_) => "z"@,
            Format::LZH(_) => "z"@,
            Format::Zip7(_) => "7z"@,
            Format::Gzip(_) => "gz"@,
            Format::Bzip2(_) => "bz2"@,
            Format::Xz(_) => "xz"@,
            Format::Brotli(_) => "br"@,
            Format::Lz4(_) => "lz4"@,
            Format::Snappy(_) => "sz"@,
            Format::Zstd(_) => "zst"@,
            Format::Tar(_) => "tar"@,
        }
    }

    /// Returns the suggested or common extension for a file format. This is
    /// no hard and fast rule: two of them are identical.
    pub fn get_extension(&self) -> (r: &'static str)
        ensures
            r@ == self.extension(),
    {
        match self {
            Format::LZW(_) => "z",
            Format::LZH(_) => "z",
            Format::Zip7(_) => "7z",
            Format::Gzip(_) => "gz",
            Format::Bzip2(_) => "bz2",
            Format::Xz(_) => "xz",
            Format::Brotli(_) => "br",
            Format::Lz4(_) => "lz4",
            Format::Snappy(_) => "sz",
            Format::Zstd(_) => "zst",
            Format::Tar(_) => "tar",
        }
    }

    /// The number by which the codec of this tag measures the effort `q`, or
    /// 0 for a codec that takes no effort parameter.
    pub open spec fn effort(self, q: Quality) -> int {
        match self {
            Format::Gzip(_) => q.gz().spec_level() as int,
            Format::Bzip2(_) => q.bz().spec_level() as int,
            Format::Xz(_) => q.xz() as int,
            Format::Zstd(_) => match q.zstd() {
                Ok(level) => level as int,
                Err(_) => 0,
            },
            Format::Brotli(_) => match q.brotli() {
                Ok(p) => p.quality() as int,
                Err(_) => 0,
            },
            Format::Lz4(_) => match q.lz4() {
                Ok(p) => p.level as int,
                Err(_) => 0,
            },
            _ => 0,
        }
    }

    /// The codecs whose effort parameter grows from fast over default to slow.
    pub open spec fn has_graded_effort(self) -> bool {
        self is Gzip || self is Bzip2 || self is Xz || self is Zstd || self is Brotli
    }
}

/// For gzip, bzip2, xz, zstd and brotli the fast selector never asks for more
/// effort than the default, and the slow selector never for less.
pub proof fn lemma_quality_is_monotonic(codec: Format)
    requires
        codec.has_graded_effort(),
    ensures
        codec.effort(Quality::FastLow) <= codec.effort(Quality::Default),
        codec.effort(Quality::Default) <= codec.effort(Quality::SlowHigh),
{
}

/// For lz4 the default selector hands the codec level 0, its own default, so
/// only the slow selector can be ordered against the other two: it asks for
/// at least as much effort as either.
pub proof fn lemma_lz4_slow_is_highest(codec: Format, q: Quality)
    requires
        codec is Lz4,
        q == Quality::FastLow || q == Quality::Default,
    ensures
        codec.effort(q) <= codec.effort(Quality::SlowHigh),
{
}

/// Every selector in range maps to parameters for each codec, and every
/// escape out of range is refused by the codec it belongs to.
pub proof fn lemma_in_range_iff_accepted(q: Quality)
    ensures
        q.in_range() <==> (q.zstd() is Ok && q.brotli() is Ok && q.lz4() is Ok),
{
}

/// Whether `pattern` stands at the start of `bytes`.
pub open spec fn has_prefix(bytes: Seq<u8>, pattern: Seq<u8>) -> bool {
    pattern.len() <= bytes.len() && forall|i: int|
        0 <= i < pattern.len() ==> bytes[i] == pattern[i]
}

/// The magic number table: each known prefix with the format it announces,
/// in the order in which the prefixes are tried.
pub open spec fn magic_table() -> Seq<(Seq<u8>, Format)> {
    seq![
        (seq![0x1Fu8, 0x9D], Format::LZW(Quality::Default)),
        (seq![0x1Fu8, 0xA0], Format::LZH(Quality::Default)),
        (seq![0x1Fu8, 0x8B], Format::Gzip(Quality::Default)),
        (seq![0x30u8, 0x30], Format::Tar(Quality::Default)),
        (seq![0x20u8, 0x00], Format::Tar(Quality::Default)),
        (seq![0x37u8, 0x7A, 0xBC], Format::Xz(Quality::Default)),
        (seq![0xAFu8, 0x27, 0x1C], Format::Xz(Quality::Default)),
        (seq![0x42u8, 0x5A, 0x68], Format::Bzip2(Quality::Default)),
        (seq![0x75u8, 0x73, 0x74], Format::Tar(Quality::Default)),
        (seq![0x61u8, 0x72, 0x20], Format::Tar(Quality::Default)),
        (seq![0x61u8, 0x72, 0x00], Format::Tar(Quality::Default)),
        (seq![0x81u8, 0xCF, 0xB2, 0xCE], Format::Brotli(Quality::Default)),
        (seq![0xCEu8, 0xB2, 0xCF, 0x81], Format::Brotli(Quality::Default)),
        (seq![0x18u8, 0x4D, 0x22, 0x04], Format::Lz4(Quality::Default)),
        (seq![0x04u8, 0x22, 0x4D, 0x18], Format::Lz4(Quality::Default)),
        (seq![0xB5u8, 0x28, 0xFD, 0x2F], Format::Zstd(Quality::Default)),
        (seq![0x28u8, 0xB5, 0x2F, 0xFD], Format::Zstd(Quality::Default)),
        (seq![0x27u8, 0xB5, 0x2F, 0xFD], Format::Zstd(Quality::Default)),
        (seq![0xFDu8, 0x2F, 0xB5, 0x27], Format::Zstd(Quality::Default)),
        (seq![0xFDu8, 0x2F, 0xB5, 0x28], Format::Zstd(Quality::Default)),
        (seq![0xFDu8, 0x37, 0x7A, 0x58, 0x5A, 0x00], Format::Xz(Quality::Default)),
        (
            seq![0xFFu8, 0x06, 0x00, 0x73, 0x4E, 0x61, 0x50, 0x70, 0x59],
            Format::Snappy(Quality::Default),
        ),
    ]
}

/// The format of the first table entry at or after `from` whose prefix
/// stands at the start of `bytes`.
pub open spec fn first_match(bytes: Seq<u8>, from: int) -> Option<Format>
    decreases magic_table().len() - from,
{
    if from < 0 || from >= magic_table().len() {
        None
    } else if has_prefix(bytes, magic_table()[from].0) {
        Some(magic_table()[from].1)
    } else {
        first_match(bytes, from + 1)
    }
}

/// The format that the first bytes of a stream announce: that of the first
/// table entry that matches, `None` where no entry does.
pub open spec fn sniff(bytes: Seq<u8>) -> Option<Format> {
    first_match(bytes, 0)
}

/// What `first_match` finds is a table entry whose prefix matches, and it
/// finds one wherever an entry at or after `from` matches.
pub proof fn lemma_first_match_is_lookup(bytes: Seq<u8>, from: int)
    requires
        0 <= from <= magic_table().len(),
    ensures
        first_match(bytes, from) matches Some(f) ==> exists|k: int|
            from <= k < magic_table().len() && has_prefix(bytes, #[trigger] magic_table()[k].0)
                && magic_table()[k].1 == f,
        first_match(bytes, from) is None <==> forall|k: int|
            from <= k < magic_table().len() ==> !has_prefix(
                bytes,
                #[trigger] magic_table()[k].0,
            ),
    decreases magic_table().len() - from,
{
    if from < magic_table().len() {
        lemma_first_match_is_lookup(bytes, from + 1);
        if has_prefix(bytes, magic_table()[from].0) {
        } else {
            assert forall|k: int| from <= k < magic_table().len() && first_match(
                bytes,
                from,
            ) is None implies !has_prefix(bytes, #[trigger] magic_table()[k].0) by {
                if k > from {
                }
            }
        }
    }
}

/// A stream is given a format exactly where some prefix of the table stands
/// at its start, and the format is that of such an entry.
pub proof fn lemma_sniff_is_lookup(bytes: Seq<u8>)
    ensures
        sniff(bytes) matches Some(f) ==> exists|k: int|
            0 <= k < magic_table().len() && has_prefix(bytes, #[trigger] magic_table()[k].0)
                && magic_table()[k].1 == f,
        sniff(bytes) is None <==> forall|k: int|
            0 <= k < magic_table().len() ==> !has_prefix(bytes, #[trigger] magic_table()[k].0),
{
    lemma_first_match_is_lookup(bytes, 0);
}

/// An input of fewer than two bytes is never given a format.
pub proof fn lemma_short_input_is_unknown(bytes: Seq<u8>)
    requires
        bytes.len() < 2,
    ensures
        sniff(bytes) is None,
{
    lemma_first_match_is_lookup(bytes, 0);
    assert forall|k: int| 0 <= k < magic_table().len() implies !has_prefix(
        bytes,
        #[trigger] magic_table()[k].0,
    ) by {
        assert(magic_table()[k].0.len() >= 2);
    }
}

/// Two entries of the table whose prefixes stand at the start of the same
/// input announce the same format, so the order of the table decides nothing.
pub proof fn lemma_magic_table_is_unambiguous(bytes: Seq<u8>, j: int, k: int)
    requires
        0 <= j < magic_table().len(),
        0 <= k < magic_table().len(),
        has_prefix(bytes, magic_table()[j].0),
        has_prefix(bytes, magic_table()[k].0),
    ensures
        magic_table()[j].1 == magic_table()[k].1,
{
    let t = magic_table();
    assert(t[j].0.len() >= 2 && t[k].0.len() >= 2);
    assert(bytes[0] == t[j].0[0] && bytes[0] == t[k].0[0]);
    assert(bytes[1] == t[j].0[1] && bytes[1] == t[k].0[1]);
}

/// Every prefix of the table is recognised as its own format, whatever
/// follows it in the stream.
pub proof fn lemma_magic_prefix_is_recognised(i: int, tail: Seq<u8>)
    requires
        0 <= i < magic_table().len(),
    ensures
        sniff(magic_table()[i].0 + tail) == Some(magic_table()[i].1),
{
    let bytes = magic_table()[i].0 + tail;
    assert(has_prefix(bytes, magic_table()[i].0));
    lemma_first_match_is_lookup(bytes, 0);
    let f = sniff(bytes)->Some_0;
    let k = choose|k: int|
        0 <= k < magic_table().len() && has_prefix(bytes, #[trigger] magic_table()[k].0)
            && magic_table()[k].1 == f;
    lemma_magic_table_is_unambiguous(bytes, i, k);
}

/// The number of leading bytes of a stream that are looked at.
pub const SNIFF_LEN: usize = 16;

/// The first sixteen bytes of a stream decide its format: what follows them
/// changes nothing.
pub proof fn lemma_sniff_reads_sixteen_bytes(bytes: Seq<u8>, n: int)
    requires
        SNIFF_LEN <= n,
    ensures
        sniff(bytes.take(if n <= bytes.len() {
            n
        } else {
            bytes.len() as int
        })) == sniff(bytes),
{
    let k = if n <= bytes.len() {
        n
    } else {
        bytes.len() as int
    };
    let head = bytes.take(k);
    lemma_first_match_is_lookup(bytes, 0);
    lemma_first_match_is_lookup(head, 0);
    assert forall|i: int| 0 <= i < magic_table().len() implies has_prefix(
        head,
        #[trigger] magic_table()[i].0,
    ) == has_prefix(bytes, magic_table()[i].0) by {
        let p = magic_table()[i].0;
        assert(p.len() <= 9);
        if has_prefix(bytes, p) {
            assert forall|j: int| 0 <= j < p.len() implies head[j] == p[j] by {
                assert(head[j] == bytes[j]);
            }
        }
        if has_prefix(head, p) {
            assert forall|j: int| 0 <= j < p.len() implies bytes[j] == p[j] by {
                assert(head[j] == bytes[j]);
            }
        }
    }
    match sniff(head) {
        Some(f) => {
            let a = choose|a: int|
                0 <= a < magic_table().len() && has_prefix(head, #[trigger] magic_table()[a].0)
                    && magic_table()[a].1 == f;
            assert(has_prefix(bytes, magic_table()[a].0));
            let g = sniff(bytes)->Some_0;
            let b = choose|b: int|
                0 <= b < magic_table().len() && has_prefix(bytes, #[trigger] magic_table()[b].0)
                    && magic_table()[b].1 == g;
            lemma_magic_table_is_unambiguous(bytes, a, b);
        },
        None => {
            assert forall|i: int| 0 <= i < magic_table().len() implies !has_prefix(
                bytes,
                #[trigger] magic_table()[i].0,
            ) by {
                assert(!has_prefix(head, magic_table()[i].0));
            }
        },
    }
}

/// Whether the bytes `a`, `b` stand at the start of `x`.
fn at2(x: &[u8], a: u8, b: u8) -> (r: bool)
    ensures
        r == has_prefix(x@, seq![a, b]),
{
    x.len() >= 2 && x[0] == a && x[1] == b
}

/// Whether the three bytes of `p` stand at the start of `x`.
fn at3(x: &[u8], p: (u8, u8, u8)) -> (r: bool)
    ensures
        r == has_prefix(x@, seq![p.0, p.1, p.2]),
{
    x.len() >= 3 && x[0] == p.0 && x[1] == p.1 && x[2] == p.2
}

/// Whether the four bytes of `p` stand at the start of `x`.
fn at4(x: &[u8], p: (u8, u8, u8, u8)) -> (r: bool)
    ensures
        r == has_prefix(x@, seq![p.0, p.1, p.2, p.3]),
{
    x.len() >= 4 && x[0] == p.0 && x[1] == p.1 && x[2] == p.2 && x[3] == p.3
}

/// Whether `pattern` stands at the start of `x`.
fn at(x: &[u8], pattern: &[u8]) -> (r: bool)
    ensures
        r == has_prefix(x@, pattern@),
{
    if pattern.len() > x.len() {
        return false;
    }
    let mut i: usize = 0;
    while i < pattern.len()
        invariant
            i <= pattern.len() <= x.len(),
            forall|j: int| 0 <= j < i ==> x@[j] == pattern@[j],
        decreases pattern.len() - i,
    {
        if x[i] != pattern[i] {
            return false;
        }
        i += 1;
    }
    true
}

/// Identifies the format of a stream from its first bytes.
///
/// The prefixes of the magic number table are tried in order and the first
/// that matches decides. A prefix that is longer than the input does not
/// match; an input that no prefix matches is unknown, and `None` comes back.
pub fn what_format(x: &[u8]) -> (r: Option<Format>)
    ensures
        r == sniff(x@),
{
    let d = Quality::Default;
    assert(magic_table().len() == 22);
    if at2(x, 0x1F, 0x9D) {
        return Some(Format::LZW(d));
    }
    assert(first_match(x@, 0) == first_match(x@, 1));
    if at2(x, 0x1F, 0xA0) {
        return Some(Format::LZH(d));
    }
    assert(first_match(x@, 1) == first_match(x@, 2));
    if at2(x, 0x1F, 0x8B) {
        return Some(Format::Gzip(d));
    }
    assert(first_match(x@, 2) == first_match(x@, 3));
    if at2(x, 0x30, 0x30) {
        return Some(Format::Tar(d));
    }
    assert(first_match(x@, 3) == first_match(x@, 4));
    if at2(x, 0x20, 0x00) {
        return Some(Format::Tar(d));
    }
    assert(first_match(x@, 4) == first_match(x@, 5));
    if at3(x, (0x37, 0x7A, 0xBC)) {
        return Some(Format::Xz(d));
    }
    assert(first_match(x@, 5) == first_match(x@, 6));
    if at3(x, (0xAF, 0x27, 0x1C)) {
        return Some(Format::Xz(d));
    }
    assert(first_match(x@, 6) == first_match(x@, 7));
    if at3(x, (0x42, 0x5A, 0x68)) {
        return Some(Format::Bzip2(d));
    }
    assert(first_match(x@, 7) == first_match(x@, 8));
    if at3(x, (0x75, 0x73, 0x74)) {
        return Some(Format::Tar(d));
    }
    assert(first_match(x@, 8) == first_match(x@, 9));
    if at3(x, (0x61, 0x72, 0x20)) {
        return Some(Format::Tar(d));
    }
    assert(first_match(x@, 9) == first_match(x@, 10));
    if at3(x, (0x61, 0x72, 0x00)) {
        return Some(Format::Tar(d));
    }
    assert(first_match(x@, 10) == first_match(x@, 11));
    if at4(x, (0x81, 0xCF, 0xB2, 0xCE)) {
        return Some(Format::Brotli(d));
    }
    assert(first_match(x@, 11) == first_match(x@, 12));
    if at4(x, (0xCE, 0xB2, 0xCF, 0x81)) {
        return Some(Format::Brotli(d));
    }
    assert(first_match(x@, 12) == first_match(x@, 13));
    if at4(x, (0x18, 0x4D, 0x22, 0x04)) {
        return Some(Format::Lz4(d));
    }
    assert(first_match(x@, 13) == first_match(x@, 14));
    if at4(x, (0x04, 0x22, 0x4D, 0x18)) {
        return Some(Format::Lz4(d));
    }
    assert(first_match(x@, 14) == first_match(x@, 15));
    if at4(x, (0xB5, 0x28, 0xFD, 0x2F)) {
        return Some(Format::Zstd(d));
    }
    assert(first_match(x@, 15) == first_match(x@, 16));
    if at4(x, (0x28, 0xB5, 0x2F, 0xFD)) {
        return Some(Format::Zstd(d));
    }
    assert(first_match(x@, 16) == first_match(x@, 17));
    if at4(x, (0x27, 0xB5, 0x2F, 0xFD)) {
        return Some(Format::Zstd(d));
    }
    assert(first_match(x@, 17) == first_match(x@, 18));
    if at4(x, (0xFD, 0x2F, 0xB5, 0x27)) {
        return Some(Format::Zstd(d));
    }
    assert(first_match(x@, 18) == first_match(x@, 19));
    if at4(x, (0xFD, 0x2F, 0xB5, 0x28)) {
        return Some(Format::Zstd(d));
    }
    assert(first_match(x@, 19) == first_match(x@, 20));
    let xz: [u8; 6] = [0xFD, 0x37, 0x7A, 0x58, 0x5A, 0x00];
    assert(xz@ =~= magic_table()[20].0);
    if at(x, xz.as_slice()) {
        return Some(Format::Xz(d));
    }
    assert(first_match(x@, 20) == first_match(x@, 21));
    let snappy: [u8; 9] = [0xFF, 0x06, 0x00, 0x73, 0x4E, 0x61, 0x50, 0x70, 0x59];
    assert(snappy@ =~= magic_table()[21].0);
    if at(x, snappy.as_slice()) {
        return Some(Format::Snappy(d));
    }
    assert(first_match(x@, 21) == first_match(x@, 22));
    None
}

} // verus!
