//! The header of a gzip member: how it is written and how it is read.
//!
//! A header is ten fixed bytes, then, as its flag byte announces, an extra
//! field with its length, a file name and a comment that each end with a
//! zero byte, and a checksum of the header itself.

use crate::bytes::{append, copy_range};
use crate::gz::crc::{bad_header, corrupt, crc32_of, from_le32, le32, push_le32, read_le32};
use crate::gz::crc::{Crc32, GzError};
use crate::header::GzQuality;
use crate::source::Source;
use vstd::prelude::*;
use vstd::slice::slice_subrange;

verus! {

/// Flag bit: a checksum of the header follows it.
pub const FHCRC: u8 = 2;

/// Flag bit: an extra field is present.
pub const FEXTRA: u8 = 4;

/// Flag bit: a file name is present.
pub const FNAME: u8 = 8;

/// Flag bit: a comment is present.
pub const FCOMMENT: u8 = 16;

/// The operating system byte that says the system is not known.
pub const OS_UNKNOWN: u8 = 255;

/// The header of a gzip member, as a mathematical value.
pub struct HeaderFields {
    pub extra: Option<Seq<u8>>,
    pub filename: Option<Seq<u8>>,
    pub comment: Option<Seq<u8>>,
    pub mtime: u32,
}

/// An optional byte string as a mathematical value.
pub open spec fn opt_bytes(v: Option<Vec<u8>>) -> Option<Seq<u8>> {
    match v {
        Some(b) => Some(b@),
        None => None,
    }
}

/// A structure representing the header of a gzip stream.
///
/// The header can contain metadata about the file that was compressed, if
/// present.
#[derive(Debug)]
pub struct Header {
    extra: Option<Vec<u8>>,
    filename: Option<Vec<u8>>,
    comment: Option<Vec<u8>>,
    mtime: u32,
}

impl View for Header {
    type V = HeaderFields;

    closed spec fn view(&self) -> HeaderFields {
        HeaderFields {
            extra: opt_bytes(self.extra),
            filename: opt_bytes(self.filename),
            comment: opt_bytes(self.comment),
            mtime: self.mtime,
        }
    }
}

impl Header {
    /// Returns the `filename` field of this gzip stream's header, if present.
    pub fn filename(&self) -> (r: Option<&[u8]>)
        ensures
            r is Some == self@.filename is Some,
            r matches Some(s) ==> self@.filename == Some(s@),
    {
        match &self.filename {
            Some(s) => Some(s.as_slice()),
            None => None,
        }
    }

    /// Returns the `extra` field of this gzip stream's header, if present.
    pub fn extra(&self) -> (r: Option<&[u8]>)
        ensures
            r is Some == self@.extra is Some,
            r matches Some(s) ==> self@.extra == Some(s@),
    {
        match &self.extra {
            Some(s) => Some(s.as_slice()),
            None => None,
        }
    }

    /// Returns the `comment` field of this gzip stream's header, if present.
    pub fn comment(&self) -> (r: Option<&[u8]>)
        ensures
            r is Some == self@.comment is Some,
            r matches Some(s) ==> self@.comment == Some(s@),
    {
        match &self.comment {
            Some(s) => Some(s.as_slice()),
            None => None,
        }
    }

    /// Returns the `mtime` field of this gzip stream's header.
    pub fn mtime(&self) -> (r: u32)
        ensures
            r == self@.mtime,
    {
        self.mtime
    }
}

/// Whether a byte string holds no zero byte.
pub open spec fn no_zero(s: Seq<u8>) -> bool {
    forall|i: int| 0 <= i < s.len() ==> s[i] != 0
}

/// Whether an optional byte string, where present, holds no zero byte.
pub open spec fn opt_no_zero(s: Option<Seq<u8>>) -> bool {
    match s {
        Some(b) => no_zero(b),
        None => true,
    }
}

/// The flag byte of a header with these fields.
pub open spec fn flags_of(f: HeaderFields) -> u8 {
    (if f.extra is Some {
        FEXTRA
    } else {
        0u8
    }) | (if f.filename is Some {
        FNAME
    } else {
        0u8
    }) | (if f.comment is Some {
        FCOMMENT
    } else {
        0u8
    })
}

/// The byte that tells a reader how hard the encoder tried.
pub open spec fn xfl_of(lvl: GzQuality) -> u8 {
    match lvl {
        GzQuality::Best => 2,
        GzQuality::Fast => 4,
        GzQuality::Default => 0,
    }
}

/// The two bytes of the low sixteen bits of `n`, lowest first.
pub open spec fn le16_of_len(n: nat) -> Seq<u8> {
    seq![(n % 256) as u8, ((n / 256) % 256) as u8]
}

/// The extra field as it stands in a header: its length, then its bytes.
pub open spec fn extra_bytes(extra: Option<Seq<u8>>) -> Seq<u8> {
    match extra {
        Some(v) => le16_of_len(v.len()) + v,
        None => Seq::empty(),
    }
}

/// A name or comment as it stands in a header: its bytes, then a zero.
pub open spec fn text_bytes(text: Option<Seq<u8>>) -> Seq<u8> {
    match text {
        Some(v) => v.push(0u8),
        None => Seq::empty(),
    }
}

/// The bytes of the header with the fields `f`, written by an encoder of
/// effort `lvl` on the operating system `os`.
pub open spec fn header_bytes(f: HeaderFields, lvl: GzQuality, os: u8) -> Seq<u8> {
    seq![0x1fu8, 0x8b, 8, flags_of(f)] + le32(f.mtime) + seq![xfl_of(lvl), os] + extra_bytes(
        f.extra,
    ) + text_bytes(f.filename) + text_bytes(f.comment)
}

/// A builder structure to create a new gzip encoder.
///
/// This structure controls header configuration options such as the
/// filename.
#[derive(Debug)]
pub struct Builder {
    extra: Option<Vec<u8>>,
    filename: Option<Vec<u8>>,
    comment: Option<Vec<u8>>,
    mtime: u32,
    os: u8,
}

impl Builder {
    /// The header fields that the builder holds.
    pub closed spec fn fields(&self) -> HeaderFields {
        HeaderFields {
            extra: opt_bytes(self.extra),
            filename: opt_bytes(self.filename),
            comment: opt_bytes(self.comment),
            mtime: self.mtime,
        }
    }

    /// The operating system byte that the builder holds.
    pub closed spec fn os_byte(&self) -> u8 {
        self.os
    }

    /// Create a new blank builder with no header by default.
    pub fn new() -> (b: Builder)
        ensures
            b.fields() == (HeaderFields { extra: None, filename: None, comment: None, mtime: 0 }),
            b.os_byte() == OS_UNKNOWN,
    {
        Builder { extra: None, filename: None, comment: None, mtime: 0, os: OS_UNKNOWN }
    }

    /// Configure the `mtime` field in the gzip header.
    pub fn mtime(self, mtime: u32) -> (b: Builder)
        ensures
            b.fields() == (HeaderFields { mtime, ..self.fields() }),
            b.os_byte() == self.os_byte(),
    {
        let mut b = self;
        b.mtime = mtime;
        b
    }

    /// Configure the operating system byte in the gzip header.
    pub fn operating_system(self, os: u8) -> (b: Builder)
        ensures
            b.fields() == self.fields(),
            b.os_byte() == os,
    {
        let mut b = self;
        b.os = os;
        b
    }

    /// Configure the `extra` field in the gzip header.
    pub fn extra(self, extra: Vec<u8>) -> (b: Builder)
        ensures
            b.fields() == (HeaderFields { extra: Some(extra@), ..self.fields() }),
            b.os_byte() == self.os_byte(),
    {
        let mut b = self;
        b.extra = Some(extra);
        b
    }

    /// Configure the `filename` field in the gzip header. The name may not
    /// hold a zero byte.
    pub fn filename(self, filename: &[u8]) -> (b: Builder)
        requires
            no_zero(filename@),
        ensures
            b.fields() == (HeaderFields { filename: Some(filename@), ..self.fields() }),
            b.os_byte() == self.os_byte(),
    {
        let mut b = self;
        b.filename = Some(copy_range(filename, 0, filename.len()));
        assert(filename@.subrange(0, filename@.len() as int) == filename@);
        b
    }

    /// Configure the `comment` field in the gzip header. The comment may not
    /// hold a zero byte.
    pub fn comment(self, comment: &[u8]) -> (b: Builder)
        requires
            no_zero(comment@),
        ensures
            b.fields() == (HeaderFields { comment: Some(comment@), ..self.fields() }),
            b.os_byte() == self.os_byte(),
    {
        let mut b = self;
        b.comment = Some(copy_range(comment, 0, comment.len()));
        assert(comment@.subrange(0, comment@.len() as int) == comment@);
        b
    }

    /// The bytes of the header that this builder describes, for an encoder
    /// of effort `lvl`.
    pub fn into_header(self, lvl: GzQuality) -> (header: Vec<u8>)
        ensures
            header@ == header_bytes(self.fields(), lvl, self.os_byte()),
    {
        let ghost f = self.fields();
        let Builder { extra, filename, comment, mtime, os } = self;
        let e: u8 = if extra.is_some() {
            FEXTRA
        } else {
            0
        };
        let n: u8 = if filename.is_some() {
            FNAME
        } else {
            0
        };
        let c: u8 = if comment.is_some() {
            FCOMMENT
        } else {
            0
        };
        let flg: u8 = e | n | c;
        let mut header: Vec<u8> = Vec::new();
        header.push(0x1f);
        header.push(0x8b);
        header.push(8);
        header.push(flg);
        push_le32(&mut header, mtime);
        header.push(
            match lvl {
                GzQuality::Best => 2,
                GzQuality::Fast => 4,
                GzQuality::Default => 0,
            },
        );
        header.push(os);
        assert(header@ =~= seq![0x1fu8, 0x8b, 8, flags_of(f)] + le32(f.mtime) + seq![
            xfl_of(lvl),
            os,
        ]);
        match extra {
            Some(v) => {
                let n = v.len();
                header.push((n % 256) as u8);
                header.push(((n / 256) % 256) as u8);
                append(&mut header, v.as_slice());
                assert(header@ =~= seq![0x1fu8, 0x8b, 8, flags_of(f)] + le32(f.mtime) + seq![
                    xfl_of(lvl),
                    os,
                ] + extra_bytes(f.extra));
            },
            None => {
                assert(header@ =~= seq![0x1fu8, 0x8b, 8, flags_of(f)] + le32(f.mtime) + seq![
                    xfl_of(lvl),
                    os,
                ] + extra_bytes(f.extra));
            },
        }
        let ghost before_name = header@;
        match filename {
            Some(v) => {
                append(&mut header, v.as_slice());
                header.push(0);
                assert(header@ =~= before_name + text_bytes(f.filename));
            },
            None => {
                assert(header@ =~= before_name + text_bytes(f.filename));
            },
        }
        let ghost before_comment = header@;
        match comment {
            Some(v) => {
                append(&mut header, v.as_slice());
                header.push(0);
                assert(header@ =~= before_comment + text_bytes(f.comment));
            },
            None => {
                assert(header@ =~= before_comment + text_bytes(f.comment));
            },
        }
        header
    }
}

/// The index of the first zero byte at or after `i`, or the length of the
/// input where none follows.
pub open spec fn zero_end(b: Seq<u8>, i: int) -> int
    decreases b.len() - i,
{
    if i < 0 || i >= b.len() {
        b.len() as int
    } else if b[i] == 0 {
        i
    } else {
        zero_end(b, i + 1)
    }
}

pub proof fn lemma_zero_end_bounds(b: Seq<u8>, i: int)
    requires
        0 <= i <= b.len(),
    ensures
        i <= zero_end(b, i) <= b.len(),
        zero_end(b, i) < b.len() ==> b[zero_end(b, i)] == 0,
        forall|j: int| i <= j < zero_end(b, i) ==> b[j] != 0,
    decreases b.len() - i,
{
    if i < b.len() && b[i] != 0 {
        lemma_zero_end_bounds(b, i + 1);
    }
}

/// The number whose two bytes, lowest first, are `b0` and `b1`.
pub open spec fn from_le16(b0: u8, b1: u8) -> u16 {
    (b0 as u16) | ((b1 as u16) << 8)
}

/// The extra field read at `at`, where the flags announce one, and where
/// reading goes on. The input may end before the field does.
pub open spec fn parse_extra(b: Seq<u8>, flg: u8, at: int) -> Result<(Option<Seq<u8>>, int), GzError> {
    if flg & FEXTRA == 0 {
        Ok((None, at))
    } else if b.len() < at + 2 {
        Err(GzError::UnexpectedEof)
    } else {
        let xlen = from_le16(b[at], b[at + 1]) as int;
        if b.len() < at + 2 + xlen {
            Err(GzError::UnexpectedEof)
        } else {
            Ok((Some(b.subrange(at + 2, at + 2 + xlen)), at + 2 + xlen))
        }
    }
}

/// The text read at `at`, where it is `present`, and where reading goes on.
/// The text ends before the first zero byte, or with the input.
pub open spec fn parse_text(b: Seq<u8>, present: bool, at: int) -> (Option<Seq<u8>>, int) {
    if !present {
        (None, at)
    } else {
        let end = zero_end(b, at);
        (
            Some(b.subrange(at, end)),
            if end < b.len() {
                end + 1
            } else {
                end
            },
        )
    }
}

/// Where reading goes on behind the header checksum at `at`, where the
/// flags announce one. The checksum is the low sixteen bits of the CRC-32
/// of the header up to it.
pub open spec fn parse_hcrc(b: Seq<u8>, flg: u8, at: int) -> Result<int, GzError> {
    if flg & FHCRC == 0 {
        Ok(at)
    } else if b.len() < at + 2 {
        Err(GzError::UnexpectedEof)
    } else if from_le16(b[at], b[at + 1]) != (crc32_of(b.subrange(0, at)) & 0xFFFF) as u16 {
        Err(GzError::Corrupt)
    } else {
        Ok(at + 2)
    }
}

/// The header at the start of `b` and its length.
///
/// Fewer than ten bytes are the end of the input. The first two bytes must
/// be `1f 8b` and the third 8, or the header is bad. The flag byte then
/// says which of the extra field, the name, the comment and the header
/// checksum follow, in this order.
pub open spec fn parse_header(b: Seq<u8>) -> Result<(HeaderFields, int), GzError> {
    if b.len() < 10 {
        Err(GzError::UnexpectedEof)
    } else if b[0] != 0x1f || b[1] != 0x8b {
        Err(GzError::BadHeader)
    } else if b[2] != 8 {
        Err(GzError::BadHeader)
    } else {
        let flg = b[3];
        let mtime = from_le32(b[4], b[5], b[6], b[7]);
        match parse_extra(b, flg, 10) {
            Err(e) => Err(e),
            Ok((extra, at_name)) => {
                let (filename, at_comment) = parse_text(b, flg & FNAME != 0, at_name);
                let (comment, at_check) = parse_text(b, flg & FCOMMENT != 0, at_comment);
                match parse_hcrc(b, flg, at_check) {
                    Err(e) => Err(e),
                    Ok(end) => Ok((HeaderFields { extra, filename, comment, mtime }, end)),
                }
            },
        }
    }
}

/// Reads two bytes at `at` as a number, lowest byte first; the input may
/// end before them.
pub fn read_le_u16(b: &[u8], at: usize) -> (r: Result<u16, GzError>)
    ensures
        match r {
            Ok(x) => at + 2 <= b@.len() && x == from_le16(b@[at as int], b@[at + 1]),
            Err(e) => at + 2 > b@.len() && e == GzError::UnexpectedEof,
        },
{
    if b.len() < 2 || at > b.len() - 2 {
        return Err(GzError::UnexpectedEof);
    }
    Ok((b[at] as u16) | ((b[at + 1] as u16) << 8))
}

/// Reads a text that ends with a zero byte or with the input.
fn read_text(b: &[u8], at: usize) -> (r: (Vec<u8>, usize))
    requires
        at <= b@.len(),
    ensures
        (Some(r.0@), r.1 as int) == parse_text(b@, true, at as int),
        at <= r.1 <= b@.len(),
{
    let mut end: usize = at;
    while end < b.len() && b[end] != 0
        invariant
            at <= end <= b.len(),
            zero_end(b@, at as int) == zero_end(b@, end as int),
        decreases b.len() - end,
    {
        end += 1;
    }
    let text = copy_range(b, at, end);
    if end < b.len() {
        (text, end + 1)
    } else {
        (text, end)
    }
}

/// Reads the header at the start of `b`: its fields and its length, or the
/// error met in it.
pub fn parse(b: &[u8]) -> (r: Result<(Header, usize), GzError>)
    ensures
        match r {
            Ok((h, n)) => parse_header(b@) == Ok::<(HeaderFields, int), GzError>((h@, n as int))
                && 10 <= n <= b@.len(),
            Err(e) => parse_header(b@) == Err::<(HeaderFields, int), GzError>(e),
        },
{
    if b.len() < 10 {
        return Err(GzError::UnexpectedEof);
    }
    if b[0] != 0x1f || b[1] != 0x8b {
        return Err(bad_header());
    }
    if b[2] != 8 {
        return Err(bad_header());
    }
    let flg = b[3];
    let mtime = read_le32(b, 4);
    let mut at: usize = 10;
    let mut extra: Option<Vec<u8>> = None;
    if flg & FEXTRA != 0 {
        let xlen = match read_le_u16(b, at) {
            Ok(x) => x as usize,
            Err(e) => {
                return Err(e);
            },
        };
        if b.len() - 12 < xlen {
            return Err(GzError::UnexpectedEof);
        }
        extra = Some(copy_range(b, 12, 12 + xlen));
        at = 12 + xlen;
    }
    assert(parse_extra(b@, flg, 10) == Ok::<(Option<Seq<u8>>, int), GzError>(
        (opt_bytes(extra), at as int),
    ));
    let mut filename: Option<Vec<u8>> = None;
    if flg & FNAME != 0 {
        let (text, next) = read_text(b, at);
        filename = Some(text);
        at = next;
    }
    let mut comment: Option<Vec<u8>> = None;
    if flg & FCOMMENT != 0 {
        let (text, next) = read_text(b, at);
        comment = Some(text);
        at = next;
    }
    if flg & FHCRC != 0 {
        let stored = match read_le_u16(b, at) {
            Ok(x) => x,
            Err(e) => {
                return Err(e);
            },
        };
        let mut crc = Crc32::new();
        crc.update(slice_subrange(b, 0, at));
        let sum = crc.sum();
        assert(sum & 0xFFFF <= 0xFFFF) by (bit_vector);
        let calced = (sum & 0xFFFF) as u16;
        assert(Seq::<u8>::empty() + b@.subrange(0, at as int) =~= b@.subrange(0, at as int));
        if calced != stored {
            return Err(corrupt());
        }
        at = at + 2;
    }
    Ok((Header { extra, filename, comment, mtime }, at))
}

/// Reads a gzip header from the source and passes over it.
///
/// Where the bytes left in the source start with a header, the header
/// comes back and the source stands behind it. Otherwise the error of
/// `parse_header` comes back and the source is left as it was.
pub fn read_gz_header(r: &mut Source) -> (res: Result<Header, GzError>)
    ensures
        final(r).data == old(r).data,
        match res {
            Ok(h) => exists|n: int|
                {
                    &&& parse_header(old(r).rest()) == Ok::<(HeaderFields, int), GzError>((h@, n))
                    &&& 10 <= n <= old(r).rest().len()
                    &&& final(r).pos == old(r).pos + n
                    &&& final(r).rest() == old(r).rest().skip(n)
                },
            Err(e) => parse_header(old(r).rest()) == Err::<(HeaderFields, int), GzError>(e)
                && final(r).pos == old(r).pos,
        },
{
    match parse(r.fill_buf()) {
        Ok((h, n)) => {
            r.consume(n);
            Ok(h)
        },
        Err(e) => Err(e),
    }
}

} // verus!
