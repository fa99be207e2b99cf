//! What holds between writing and reading a gzip header.

use crate::gz::crc::{le32, lemma_le32_round_trip, GzError};
use crate::gz::header::{
    extra_bytes, flags_of, from_le16, header_bytes, le16_of_len, opt_no_zero,
    parse_extra, parse_hcrc, parse_header, parse_text, text_bytes, xfl_of, zero_end,
    HeaderFields, FCOMMENT, FEXTRA, FHCRC, FNAME,
};
use crate::header::GzQuality;
use vstd::prelude::*;

verus! {

/// The first zero byte at or after `i` is at `j` where the bytes from `i` up
/// to `j` are not zero and the byte at `j` is.
pub proof fn lemma_zero_end_is(b: Seq<u8>, i: int, j: int)
    requires
        0 <= i <= j < b.len(),
        forall|k: int| i <= k < j ==> b[k] != 0,
        b[j] == 0,
    ensures
        zero_end(b, i) == j,
    decreases j - i,
{
    if i < j {
        lemma_zero_end_is(b, i + 1, j);
    }
}

/// The flag byte of a header tells exactly which fields it holds, and never
/// announces a header checksum.
pub proof fn lemma_flags_tell_fields(f: HeaderFields)
    ensures
        (flags_of(f) & FEXTRA != 0) == (f.extra is Some),
        (flags_of(f) & FNAME != 0) == (f.filename is Some),
        (flags_of(f) & FCOMMENT != 0) == (f.comment is Some),
        flags_of(f) & FHCRC == 0,
{
    let e = if f.extra is Some {
        FEXTRA
    } else {
        0u8
    };
    let n = if f.filename is Some {
        FNAME
    } else {
        0u8
    };
    let c = if f.comment is Some {
        FCOMMENT
    } else {
        0u8
    };
    let flg = e | n | c;
    assert(((flg & 4 != 0) == (e == 4)) && ((flg & 8 != 0) == (n == 8)) && ((flg & 16 != 0) == (c
        == 16)) && (flg & 2 == 0)) by (bit_vector)
        requires
            flg == e | n | c,
            e == 0 || e == 4,
            n == 0 || n == 8,
            c == 0 || c == 16,
    ;
}

/// Two bytes written for a length below 2^16 read back as that length.
pub proof fn lemma_le16_round_trip(n: nat)
    requires
        n <= 0xFFFF,
    ensures
        from_le16(le16_of_len(n)[0], le16_of_len(n)[1]) == n,
{
    let lo = (n % 256) as u8;
    let hi = ((n / 256) % 256) as u8;
    let m = n as u16;
    assert(lo == (m & 0xFF) as u8 && hi == ((m >> 8) & 0xFF) as u8) by {
        assert(m % 256 == m & 0xFF) by (bit_vector);
        assert((m / 256) % 256 == (m >> 8) & 0xFF) by (bit_vector);
    }
    assert((lo as u16) | ((hi as u16) << 8) == m) by (bit_vector)
        requires
            lo == (m & 0xFF) as u8,
            hi == ((m >> 8) & 0xFF) as u8,
    ;
}

/// A text without a zero byte, written at `at` and followed by its zero,
/// reads back as itself.
pub proof fn lemma_text_round_trip(b: Seq<u8>, text: Option<Seq<u8>>, at: int)
    requires
        0 <= at,
        at + text_bytes(text).len() <= b.len(),
        b.subrange(at, at + text_bytes(text).len()) == text_bytes(text),
        opt_no_zero(text),
    ensures
        parse_text(b, text is Some, at) == (text, at + text_bytes(text).len()),
{
    match text {
        Some(v) => {
            let w = text_bytes(text);
            assert forall|k: int| at <= k < at + v.len() implies b[k] != 0 by {
                assert(b[k] == w[k - at]);
                assert(w[k - at] == v[k - at]);
            }
            assert(b[at + v.len()] == w[v.len() as int]);
            lemma_zero_end_is(b, at, at + v.len());
            assert(b.subrange(at, at + v.len()) =~= v) by {
                assert forall|k: int| 0 <= k < v.len() implies b.subrange(at, at + v.len())[k]
                    == v[k] by {
                    assert(b[at + k] == w[k]);
                }
            }
        },
        None => {},
    }
}

/// Reading the header that was written gives back the fields that went
/// in and stops right behind the header, whatever follows it, as long as
/// the extra field is shorter than 2^16 bytes and neither name nor comment
/// holds a zero byte.
pub proof fn lemma_header_round_trip(f: HeaderFields, lvl: GzQuality, os: u8, tail: Seq<u8>)
    requires
        f.extra matches Some(v) ==> v.len() <= 0xFFFF,
        opt_no_zero(f.filename),
        opt_no_zero(f.comment),
    ensures
        parse_header(header_bytes(f, lvl, os) + tail) == Ok::<(HeaderFields, int), GzError>(
            (f, header_bytes(f, lvl, os).len() as int),
        ),
{
    let h = header_bytes(f, lvl, os);
    let b = h + tail;
    let fixed = seq![0x1fu8, 0x8b, 8, flags_of(f)] + le32(f.mtime) + seq![xfl_of(lvl), os];
    let ex = extra_bytes(f.extra);
    let nm = text_bytes(f.filename);
    let cm = text_bytes(f.comment);
    assert(fixed.len() == 10);
    assert(h =~= fixed + ex + nm + cm);
    assert forall|k: int| 0 <= k < 10 implies b[k] == fixed[k] by {
        assert(h[k] == fixed[k]);
    }
    assert(b[0] == 0x1f && b[1] == 0x8b && b[2] == 8 && b[3] == flags_of(f));
    assert(b[4] == le32(f.mtime)[0] && b[5] == le32(f.mtime)[1] && b[6] == le32(f.mtime)[2]
        && b[7] == le32(f.mtime)[3]) by {
        assert(fixed[4] == le32(f.mtime)[0]);
        assert(fixed[5] == le32(f.mtime)[1]);
        assert(fixed[6] == le32(f.mtime)[2]);
        assert(fixed[7] == le32(f.mtime)[3]);
    }
    lemma_le32_round_trip(f.mtime);
    lemma_flags_tell_fields(f);
    let flg = flags_of(f);
    let at_name: int = 10 + ex.len() as int;
    assert(parse_extra(b, flg, 10) == Ok::<(Option<Seq<u8>>, int), GzError>((f.extra, at_name))) by {
        match f.extra {
            Some(v) => {
                assert(ex.len() == 2 + v.len());
                assert(b[10] == ex[0] && b[11] == ex[1]) by {
                    assert(h[10] == ex[0]);
                    assert(h[11] == ex[1]);
                }
                assert(ex[0] == le16_of_len(v.len())[0] && ex[1] == le16_of_len(v.len())[1]);
                lemma_le16_round_trip(v.len());
                assert(b.subrange(12, 12 + v.len() as int) =~= v) by {
                    assert forall|k: int| 0 <= k < v.len() implies b.subrange(12, 12 + v.len() as int)[k]
                        == v[k] by {
                        assert(b[12 + k] == h[12 + k]);
                        assert(h[12 + k] == ex[2 + k]);
                    }
                }
            },
            None => {},
        }
    }
    let at_comment: int = at_name + nm.len() as int;
    assert(b.subrange(at_name, at_comment) =~= nm) by {
        assert forall|k: int| 0 <= k < nm.len() implies b.subrange(at_name, at_comment)[k]
            == nm[k] by {
            assert(b[at_name + k] == h[at_name + k]);
        }
    }
    lemma_text_round_trip(b, f.filename, at_name);
    let at_check: int = at_comment + cm.len() as int;
    assert(b.subrange(at_comment, at_check) =~= cm) by {
        assert forall|k: int| 0 <= k < cm.len() implies b.subrange(at_comment, at_check)[k]
            == cm[k] by {
            assert(b[at_comment + k] == h[at_comment + k]);
        }
    }
    lemma_text_round_trip(b, f.comment, at_comment);
    assert(parse_hcrc(b, flg, at_check) == Ok::<int, GzError>(at_check));
    assert(at_check == h.len());
}

/// A stream that starts with the header that an encoder writes opens as a
/// gzip stream with the fields that the encoder was given, as long as the
/// extra field is shorter than 2^16 bytes and neither name nor comment
/// holds a zero byte.
pub proof fn lemma_written_stream_opens(f: HeaderFields, lvl: GzQuality, os: u8, stream: Seq<u8>)
    requires
        header_bytes(f, lvl, os).is_prefix_of(stream),
        f.extra matches Some(v) ==> v.len() <= 0xFFFF,
        opt_no_zero(f.filename),
        opt_no_zero(f.comment),
    ensures
        parse_header(stream) == Ok::<(HeaderFields, int), GzError>(
            (f, header_bytes(f, lvl, os).len() as int),
        ),
{
    let h = header_bytes(f, lvl, os);
    let tail = stream.skip(h.len() as int);
    assert(stream =~= h + tail);
    lemma_header_round_trip(f, lvl, os, tail);
}

/// A stream that does not begin with the bytes `1f 8b 08` is never read as
/// a gzip header.
pub proof fn lemma_wrong_magic_is_refused(b: Seq<u8>)
    requires
        b.len() < 3 || b[0] != 0x1f || b[1] != 0x8b || b[2] != 8,
    ensures
        parse_header(b) is Err,
{
}

} // verus!
