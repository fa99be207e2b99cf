use car::gz::crc::{check_trailer, CrcReader, Crc32, GzError};
use car::gz::encoder::{copy, EncoderReader, EncoderReaderBuf};
use car::gz::header::{read_gz_header, read_le_u16, Builder};
use car::gz::multi::{MultiDecoderReader, MultiDecoderReaderBuf};
use car::gz::read::{DecoderReader, DecoderReaderBuf};
use car::source::Source;
use car::gz::write::EncoderWriter;
use car::header::GzQuality;
use rand::{thread_rng, Rng};
use std::io::{Read, Write};

fn write_all(e: &mut EncoderWriter, mut data: &[u8]) {
    while !data.is_empty() {
        let n = e.write(data).unwrap();
        assert!(n > 0);
        data = &data[n..];
    }
}

fn read_to_end(d: &mut DecoderReader, out: &mut Vec<u8>) -> Result<(), GzError> {
    let mut chunk = vec![0u8; 4096];
    loop {
        let n = d.read(&mut chunk)?;
        if n == 0 {
            return Ok(());
        }
        out.extend_from_slice(&chunk[..n]);
    }
}

#[test]
fn roundtrip() {
    let mut e = EncoderWriter::new(Vec::new(), GzQuality::Default);
    write_all(&mut e, b"foo bar baz");
    let inner = e.finish().unwrap();
    let mut d = DecoderReader::new(inner).unwrap();
    let mut s = Vec::new();
    read_to_end(&mut d, &mut s).unwrap();
    assert_eq!(String::from_utf8(s).unwrap(), "foo bar baz");
}

#[test]
fn roundtrip_zero() {
    let e = EncoderWriter::new(Vec::new(), GzQuality::Default);
    let inner = e.finish().unwrap();
    let mut d = DecoderReader::new(inner).unwrap();
    let mut s = Vec::new();
    read_to_end(&mut d, &mut s).unwrap();
    assert_eq!(String::from_utf8(s).unwrap(), "");
}

#[test]
fn roundtrip_big() {
    let mut real = Vec::new();
    let mut w = EncoderWriter::new(Vec::new(), GzQuality::Default);
    let mut rng = thread_rng();
    let mut v: Vec<u8> = Vec::new();
    for _ in 0..1024 {
        v.push(rng.gen());
    }
    for _ in 0..200 {
        let to_write = &v[..rng.gen_range(0..v.len())];
        real.extend(to_write.iter().map(|x| *x));
        write_all(&mut w, to_write);
    }
    let result = w.finish().unwrap();
    let mut r = DecoderReader::new(result).unwrap();
    let mut v = Vec::new();
    read_to_end(&mut r, &mut v).unwrap();
    assert!(v == real);
}

#[test]
fn keep_reading_after_end() {
    let mut e = EncoderWriter::new(Vec::new(), GzQuality::Default);
    write_all(&mut e, b"foo bar baz");
    let inner = e.finish().unwrap();
    let mut d = DecoderReader::new(inner).unwrap();
    let mut s = Vec::new();
    read_to_end(&mut d, &mut s).unwrap();
    assert_eq!(String::from_utf8(s.clone()).unwrap(), "foo bar baz");
    read_to_end(&mut d, &mut s).unwrap();
    assert_eq!(String::from_utf8(s).unwrap(), "foo bar baz");
}

#[test]
fn flush_after_write() {
    let mut f = EncoderWriter::new(Vec::new(), GzQuality::Default);
    write_all(&mut f, b"Hello world");
    f.flush().unwrap();
}

#[test]
fn header_fields_come_back() {
    let mut e = Builder::new()
        .filename(b"foo.rs")
        .comment(b"bar")
        .extra(vec![0, 1, 2, 3])
        .mtime(0x01020304)
        .write(Vec::new(), GzQuality::Default);
    write_all(&mut e, &[0, 2, 4, 6]);
    let packed = e.finish().unwrap();
    let mut d = DecoderReader::new(packed).unwrap();
    assert_eq!(d.header().filename(), Some(&b"foo.rs"[..]));
    assert_eq!(d.header().comment(), Some(&b"bar"[..]));
    assert_eq!(d.header().extra(), Some(&b"\x00\x01\x02\x03"[..]));
    assert_eq!(d.header().mtime(), 0x01020304);
    let mut res = Vec::new();
    read_to_end(&mut d, &mut res).unwrap();
    assert_eq!(res, vec![0, 2, 4, 6]);
}

#[test]
fn header_bytes_are_exact() {
    let h = Builder::new()
        .filename(b"a")
        .extra(vec![9, 8])
        .mtime(0x0A0B0C0D)
        .operating_system(3)
        .into_header(GzQuality::Best);
    assert_eq!(
        h,
        vec![0x1f, 0x8b, 8, 4 | 8, 0x0D, 0x0C, 0x0B, 0x0A, 2, 3, 2, 0, 9, 8, b'a', 0]
    );
    let plain = Builder::new().into_header(GzQuality::Fast);
    assert_eq!(plain, vec![0x1f, 0x8b, 8, 0, 0, 0, 0, 0, 4, 255]);
}

#[test]
fn finished_stream_has_header_and_trailer() {
    let mut e = EncoderWriter::new(vec![7, 7], GzQuality::Default);
    write_all(&mut e, b"hello");
    let out = e.finish().unwrap();
    assert_eq!(&out[..12], &[7, 7, 0x1f, 0x8b, 8, 0, 0, 0, 0, 0, 0, 255]);
    // CRC-32 of "hello" is 0x3610a686, its length 5.
    assert_eq!(&out[out.len() - 8..], &[0x86, 0xa6, 0x10, 0x36, 5, 0, 0, 0]);
}

#[test]
fn flipped_trailer_byte_is_corrupt() {
    for i in 0..8 {
        let mut e = EncoderWriter::new(Vec::new(), GzQuality::Default);
        write_all(&mut e, b"some data to protect");
        let mut packed = e.finish().unwrap();
        let at = packed.len() - 8 + i;
        packed[at] ^= 0x01;
        let mut d = DecoderReader::new(packed).unwrap();
        let mut out = Vec::new();
        assert_eq!(read_to_end(&mut d, &mut out), Err(GzError::Corrupt));
    }
}

#[test]
fn missing_trailer_is_corrupt() {
    let mut e = EncoderWriter::new(Vec::new(), GzQuality::Default);
    write_all(&mut e, b"some data to protect");
    let mut packed = e.finish().unwrap();
    let n = packed.len();
    packed.truncate(n - 3);
    let mut d = DecoderReader::new(packed).unwrap();
    let mut out = Vec::new();
    assert_eq!(read_to_end(&mut d, &mut out), Err(GzError::Corrupt));
}

#[test]
fn bad_magic_is_bad_header() {
    let r = DecoderReader::new(vec![0x1f, 0x8c, 8, 0, 0, 0, 0, 0, 0, 255, 3, 0]);
    assert!(matches!(r, Err(GzError::BadHeader)));
    let r = DecoderReader::new(vec![0x1f, 0x8b, 7, 0, 0, 0, 0, 0, 0, 255, 3, 0]);
    assert!(matches!(r, Err(GzError::BadHeader)));
}

#[test]
fn short_header_is_unexpected_eof() {
    let r = DecoderReader::new(vec![0x1f, 0x8b, 8, 0, 0]);
    assert!(matches!(r, Err(GzError::UnexpectedEof)));
    // The extra field announces five bytes and two follow.
    let r = DecoderReader::new(vec![0x1f, 0x8b, 8, 4, 0, 0, 0, 0, 0, 255, 5, 0, 1, 2]);
    assert!(matches!(r, Err(GzError::UnexpectedEof)));
}

#[test]
fn header_checksum_is_checked() {
    // Flag FHCRC with a checksum that cannot match.
    let mut bytes = vec![0x1f, 0x8b, 8, 2, 0, 0, 0, 0, 0, 255];
    let mut c = flate2::Crc::new();
    c.update(&bytes);
    let good = (c.sum() & 0xFFFF) as u16;
    let bad = good ^ 1;
    bytes.push((bad & 0xFF) as u8);
    bytes.push((bad >> 8) as u8);
    assert!(matches!(DecoderReader::new(bytes.clone()), Err(GzError::Corrupt)));
    let n = bytes.len();
    bytes[n - 2] = (good & 0xFF) as u8;
    bytes[n - 1] = (good >> 8) as u8;
    assert!(DecoderReader::new(bytes).is_ok());
}

#[test]
fn zero_length_read_leaves_the_stream_open() {
    let mut e = EncoderWriter::new(Vec::new(), GzQuality::Default);
    write_all(&mut e, b"abc");
    let packed = e.finish().unwrap();
    let mut d = DecoderReader::new(packed).unwrap();
    let mut none: Vec<u8> = Vec::new();
    assert_eq!(d.read(&mut none), Ok(0));
    let mut out = Vec::new();
    read_to_end(&mut d, &mut out).unwrap();
    assert_eq!(out, b"abc");
}

#[test]
fn reference_decoder_reads_our_stream() {
    let mut e = EncoderWriter::new(Vec::new(), GzQuality::Best);
    write_all(&mut e, b"interoperable");
    let packed = e.finish().unwrap();
    let mut d = flate2::read::GzDecoder::new(&packed[..]);
    let mut s = String::new();
    d.read_to_string(&mut s).unwrap();
    assert_eq!(s, "interoperable");
}

#[test]
fn our_decoder_reads_reference_stream() {
    let mut e = flate2::write::GzEncoder::new(Vec::new(), flate2::Compression::default());
    e.write_all(b"interoperable").unwrap();
    let packed = e.finish().unwrap();
    let mut d = DecoderReader::new(packed).unwrap();
    let mut out = Vec::new();
    read_to_end(&mut d, &mut out).unwrap();
    assert_eq!(out, b"interoperable");
}

fn drain(e: &mut EncoderReader) -> Vec<u8> {
    let mut out = Vec::new();
    let mut chunk = vec![0u8; 1000];
    loop {
        let n = e.read(&mut chunk).unwrap();
        if n == 0 {
            return out;
        }
        out.extend_from_slice(&chunk[..n]);
    }
}

fn reader_round_trip(v: Vec<u8>) -> bool {
    let mut r = EncoderReader::new(v.clone(), GzQuality::Default);
    let packed = drain(&mut r);
    let mut r = DecoderReader::new(packed).unwrap();
    let mut v2 = Vec::new();
    read_to_end(&mut r, &mut v2).unwrap();
    v == v2
}

#[test]
fn roundtrip_big2() {
    let mut rng = thread_rng();
    let mut v: Vec<u8> = Vec::new();
    for _ in 0..1024 * 1024 {
        v.push(rng.gen());
    }
    let mut e = EncoderReader::new(v.clone(), GzQuality::Default);
    let packed = drain(&mut e);
    let mut r = DecoderReader::new(packed).unwrap();
    let mut res = Vec::new();
    read_to_end(&mut r, &mut res).unwrap();
    assert!(res == v);
}

#[test]
fn fields() {
    let r = vec![0, 2, 4, 6];
    let mut e = Builder::new()
        .filename(b"foo.rs")
        .comment(b"bar")
        .extra(vec![0, 1, 2, 3])
        .read(r, GzQuality::Default);
    let packed = drain(&mut e);
    let mut d = DecoderReader::new(packed).unwrap();
    assert_eq!(d.header().filename(), Some(&b"foo.rs"[..]));
    assert_eq!(d.header().comment(), Some(&b"bar"[..]));
    assert_eq!(d.header().extra(), Some(&b"\x00\x01\x02\x03"[..]));
    let mut res = Vec::new();
    read_to_end(&mut d, &mut res).unwrap();
    assert_eq!(res, vec![0, 2, 4, 6]);
}

#[test]
fn qc_reader() {
    quickcheck::quickcheck(reader_round_trip as fn(Vec<u8>) -> bool);
}

#[test]
fn reading_and_writing_encoders_agree() {
    let data = b"the same stream either way, the same stream either way".to_vec();
    let mut w = EncoderWriter::new(Vec::new(), GzQuality::Default);
    write_all(&mut w, &data);
    let written = w.finish().unwrap();
    let mut r = EncoderReader::new(data.clone(), GzQuality::Default);
    let read = drain(&mut r);
    assert_eq!(&read[..10], &written[..10]);
    assert_eq!(&read[read.len() - 8..], &written[written.len() - 8..]);
    assert_eq!(r.into_inner(), data);
}

#[test]
fn encoder_reader_with_tiny_buffers() {
    let data = b"hello hello hello hello".to_vec();
    let mut e = EncoderReader::new(data.clone(), GzQuality::Best);
    let mut packed = Vec::new();
    let mut one = [0u8; 1];
    loop {
        let n = e.read(&mut one).unwrap();
        if n == 0 {
            break;
        }
        packed.push(one[0]);
    }
    let mut none: [u8; 0] = [];
    assert_eq!(e.read(&mut none), Ok(0));
    assert_eq!(e.read(&mut one), Ok(0));
    let mut d = flate2::read::GzDecoder::new(&packed[..]);
    let mut out = Vec::new();
    d.read_to_end(&mut out).unwrap();
    assert_eq!(out, data);
}

fn read_all_members(d: &mut MultiDecoderReader) -> Result<Vec<u8>, GzError> {
    let mut out = Vec::new();
    let mut chunk = vec![0u8; 512];
    loop {
        let n = d.read(&mut chunk)?;
        if n == 0 {
            return Ok(out);
        }
        out.extend_from_slice(&chunk[..n]);
    }
}

fn member(data: &[u8], name: &[u8]) -> Vec<u8> {
    let mut e = Builder::new().filename(name).write(Vec::new(), GzQuality::Default);
    write_all(&mut e, data);
    e.finish().unwrap()
}

#[test]
fn all_members_are_decoded() {
    let mut stream = member(b"first ", b"one");
    stream.extend(member(b"second ", b"two"));
    stream.extend(member(b"", b"empty"));
    stream.extend(member(b"third", b"three"));
    let mut d = MultiDecoderReader::new(stream.clone()).unwrap();
    assert_eq!(d.header().filename(), Some(&b"one"[..]));
    assert_eq!(read_all_members(&mut d).unwrap(), b"first second third");
    assert_eq!(d.header().filename(), Some(&b"three"[..]));
    let mut chunk = [0u8; 8];
    assert_eq!(d.read(&mut chunk), Ok(0));

    let mut single = DecoderReader::new(stream).unwrap();
    let mut out = Vec::new();
    read_to_end(&mut single, &mut out).unwrap();
    assert_eq!(out, b"first ");
}

#[test]
fn damaged_second_member_is_flagged() {
    let mut stream = member(b"first ", b"one");
    let mut second = member(b"second", b"two");
    let n = second.len();
    second[n - 1] ^= 1;
    stream.extend(second);
    let mut d = MultiDecoderReader::new(stream).unwrap();
    assert_eq!(read_all_members(&mut d), Err(GzError::Corrupt));

    let mut stream = member(b"first ", b"one");
    stream.extend_from_slice(b"garbage that is no gzip header");
    let mut d = MultiDecoderReader::new(stream).unwrap();
    assert_eq!(read_all_members(&mut d), Err(GzError::BadHeader));
}

#[test]
fn copy_moves_what_fits() {
    let from = [1u8, 2, 3, 4, 5];
    let mut pos = 1usize;
    let mut into = [0u8; 3];
    assert_eq!(copy(&mut into, &from, &mut pos), 3);
    assert_eq!(into, [2, 3, 4]);
    assert_eq!(pos, 4);
    let mut into = [9u8; 3];
    assert_eq!(copy(&mut into, &from, &mut pos), 1);
    assert_eq!(into, [5, 9, 9]);
    assert_eq!(pos, 5);
    assert_eq!(copy(&mut into, &from, &mut pos), 0);
    assert_eq!(pos, 5);
}

#[test]
fn checksum_of_known_text() {
    let mut c = Crc32::new();
    assert_eq!(c.sum(), 0);
    assert_eq!(c.amt_as_u32(), 0);
    c.update(b"123");
    c.update(b"456789");
    assert_eq!(c.sum(), 0xCBF43926);
    assert_eq!(c.amt_as_u32(), 9);
    c.reset();
    assert_eq!(c.sum(), 0);
    assert_eq!(c.amt_as_u32(), 0);
}

#[test]
fn trailer_check_is_exact() {
    let good = [0x26, 0x39, 0xF4, 0xCB, 9, 0, 0, 0];
    assert_eq!(check_trailer(&good, 0xCBF43926, 9), Ok(()));
    for i in 0..8 {
        let mut bad = good;
        bad[i] ^= 0x10;
        assert_eq!(check_trailer(&bad, 0xCBF43926, 9), Err(GzError::Corrupt));
    }
    assert_eq!(check_trailer(&good[..7], 0xCBF43926, 9), Err(GzError::Corrupt));
    assert_eq!(check_trailer(&good, 0xCBF43926, 10), Err(GzError::Corrupt));
}

#[test]
fn crc_reader_sums_what_it_hands_out() {
    let mut r = CrcReader::new(Source::new(b"123456789".to_vec()));
    let mut buf = [0u8; 4];
    assert_eq!(r.read(&mut buf), 4);
    assert_eq!(&buf, b"1234");
    assert_eq!(r.fill_buf(), b"56789");
    r.consume(2);
    assert_eq!(r.read(&mut buf), 3);
    assert_eq!(&buf[..3], b"789");
    assert_eq!(r.read(&mut buf), 0);
    assert_eq!(r.crc().sum(), 0xCBF43926);
    assert_eq!(r.crc().amt_as_u32(), 9);
    r.reset();
    assert_eq!(r.crc().amt_as_u32(), 0);
    r.inner().pos = 0;
    assert_eq!(r.read(&mut buf), 4);
    assert_eq!(r.crc().amt_as_u32(), 4);
    assert_eq!(r.into_inner().into_inner(), b"123456789");
}

#[test]
fn sixteen_bit_numbers() {
    assert_eq!(read_le_u16(&[0x34, 0x12, 0xFF], 0), Ok(0x1234));
    assert_eq!(read_le_u16(&[0x34, 0x12, 0xFF], 1), Ok(0xFF12));
    assert_eq!(read_le_u16(&[0x34, 0x12, 0xFF], 2), Err(GzError::UnexpectedEof));
    assert_eq!(read_le_u16(&[], 0), Err(GzError::UnexpectedEof));
}

#[test]
fn header_reader_stops_behind_the_header() {
    let mut bytes = Builder::new()
        .filename(b"n")
        .comment(b"c")
        .mtime(7)
        .into_header(GzQuality::Default);
    let n = bytes.len();
    bytes.extend_from_slice(b"rest");
    let mut src = Source::new(bytes);
    let h = read_gz_header(&mut src).unwrap();
    assert_eq!(h.filename(), Some(&b"n"[..]));
    assert_eq!(h.comment(), Some(&b"c"[..]));
    assert_eq!(h.extra(), None);
    assert_eq!(h.mtime(), 7);
    assert_eq!(src.pos, n);
    assert_eq!(src.fill_buf(), b"rest");

    let mut bad = Source::new(b"no header here".to_vec());
    assert_eq!(read_gz_header(&mut bad).unwrap_err(), GzError::BadHeader);
    assert_eq!(bad.pos, 0);
}

#[test]
fn name_without_end_runs_to_the_end_of_the_input() {
    let bytes = vec![0x1f, 0x8b, 8, 8, 0, 0, 0, 0, 0, 255, b'a', b'b'];
    let mut src = Source::new(bytes);
    let h = read_gz_header(&mut src).unwrap();
    assert_eq!(h.filename(), Some(&b"ab"[..]));
    assert_eq!(src.fill_buf(), b"");
}

#[test]
fn gz_error_texts() {
    assert_eq!(GzError::BadHeader.message(), "invalid gzip header");
    assert_eq!(
        GzError::Corrupt.message(),
        "corrupt gzip stream does not have a matching checksum"
    );
}

#[test]
fn buffered_types_start_where_the_source_stands() {
    let data = b"what is left of the source".to_vec();
    let mut src = Source::new(data.clone());
    src.consume(8);
    let mut e = EncoderReaderBuf::new(src, GzQuality::Default);
    let mut packed = vec![0xAA, 0xBB];
    let mut chunk = [0u8; 33];
    loop {
        let n = e.read(&mut chunk).unwrap();
        if n == 0 {
            break;
        }
        packed.extend_from_slice(&chunk[..n]);
    }
    assert_eq!(e.into_inner().pos, data.len());

    let mut src = Source::new(packed.clone());
    src.consume(2);
    let mut d = DecoderReaderBuf::new(src).unwrap();
    let mut out = Vec::new();
    loop {
        let n = d.read(&mut chunk).unwrap();
        if n == 0 {
            break;
        }
        out.extend_from_slice(&chunk[..n]);
    }
    assert_eq!(out, &data[8..]);

    let mut twice = packed[2..].to_vec();
    twice.extend_from_slice(&packed[2..]);
    let mut m = MultiDecoderReaderBuf::new(Source::new(twice)).unwrap();
    let mut out = Vec::new();
    loop {
        let n = m.read(&mut chunk).unwrap();
        if n == 0 {
            break;
        }
        out.extend_from_slice(&chunk[..n]);
    }
    let mut want = data[8..].to_vec();
    want.extend_from_slice(&data[8..]);
    assert_eq!(out, want);

    let b = Builder::new().comment(b"c").buf_read(Source::new(vec![1, 2, 3]), GzQuality::Fast);
    assert_eq!(b.into_inner().into_inner(), vec![1, 2, 3]);
}

#[test]
fn header_and_trailer_come_without_the_deflater() {
    let mut e = EncoderReader::new(b"abc".to_vec(), GzQuality::Default);
    let mut none: [u8; 0] = [];
    assert_eq!(e.read(&mut none), Ok(0));
    let mut four = [0u8; 4];
    assert_eq!(e.read(&mut four), Ok(4));
    assert_eq!(four, [0x1f, 0x8b, 8, 0]);
    let mut big = [0xEEu8; 100];
    assert_eq!(e.read(&mut big), Ok(6));
    assert_eq!(&big[..6], &[0, 0, 0, 0, 0, 255]);
    assert_eq!(big[6], 0xEE);
    assert_eq!(e.read(&mut none), Ok(0));
    // The compressed data, then the trailer: checksum and length of "abc".
    let mut rest = Vec::new();
    let mut three = [0u8; 3];
    loop {
        let n = e.read(&mut three).unwrap();
        if n == 0 {
            break;
        }
        rest.extend_from_slice(&three[..n]);
    }
    let n = rest.len();
    assert_eq!(&rest[n - 8..], &[0xc2, 0x41, 0x24, 0x35, 3, 0, 0, 0]);
    assert_eq!(e.read(&mut big), Ok(0));
    assert_eq!(e.read(&mut none), Ok(0));
}

#[test]
fn finished_multi_decoder_hands_back_zero() {
    let stream = member(b"only", b"m");
    let mut d = MultiDecoderReader::new(stream).unwrap();
    let mut none: [u8; 0] = [];
    assert_eq!(d.read(&mut none), Ok(0));
    assert_eq!(read_all_members(&mut d).unwrap(), b"only");
    let mut chunk = [7u8; 16];
    assert_eq!(d.read(&mut chunk), Ok(0));
    assert_eq!(d.read(&mut chunk), Ok(0));
    assert_eq!(chunk, [7u8; 16]);
    assert_eq!(d.read(&mut none), Ok(0));
}

#[test]
fn member_without_trailer_or_with_a_bad_next_header() {
    let mut cut = member(b"data", b"m");
    let n = cut.len();
    cut.truncate(n - 1);
    let mut d = MultiDecoderReader::new(cut).unwrap();
    assert_eq!(read_all_members(&mut d), Err(GzError::Corrupt));

    let mut short = member(b"data", b"m");
    short.extend_from_slice(&[0x1f, 0x8b, 8]);
    let mut d = MultiDecoderReader::new(short).unwrap();
    assert_eq!(read_all_members(&mut d), Err(GzError::UnexpectedEof));
}

#[test]
fn stream_cut_inside_the_data_is_incomplete() {
    let mut data = Vec::new();
    let mut x: u32 = 12345;
    for _ in 0..20000 {
        x = x.wrapping_mul(1664525).wrapping_add(1013904223);
        data.push((x >> 24) as u8);
    }
    let mut e = EncoderWriter::new(Vec::new(), GzQuality::Default);
    write_all(&mut e, &data);
    let mut packed = e.finish().unwrap();
    packed.truncate(5000);
    let mut d = DecoderReader::new(packed.clone()).unwrap();
    let mut out = Vec::new();
    assert_eq!(read_to_end(&mut d, &mut out), Err(GzError::Incomplete));
    assert!(data.starts_with(&out));
    let mut m = MultiDecoderReader::new(packed).unwrap();
    assert_eq!(read_all_members(&mut m), Err(GzError::Incomplete));
    assert_eq!(GzError::Incomplete.message(), "incomplete deflate stream");
}

#[test]
fn damaged_data_is_flagged() {
    let mut e = EncoderWriter::new(Vec::new(), GzQuality::Default);
    write_all(&mut e, b"some data to protect, some data to protect");
    let mut packed = e.finish().unwrap();
    // Three reserved bits in the first block header make the block invalid.
    packed[10] = 0x07;
    let mut d = DecoderReader::new(packed).unwrap();
    let mut out = Vec::new();
    assert_eq!(read_to_end(&mut d, &mut out), Err(GzError::Deflate));
    assert_eq!(GzError::Deflate.message(), "corrupt deflate stream");
}

#[test]
fn flush_between_writes_keeps_the_data() {
    let mut plain = EncoderWriter::new(Vec::new(), GzQuality::Default);
    write_all(&mut plain, b"first part, second part");
    let plain = plain.finish().unwrap();

    let mut e = EncoderWriter::new(vec![9, 9], GzQuality::Default);
    write_all(&mut e, b"first part, ");
    assert_eq!(e.flush(), Ok(()));
    write_all(&mut e, b"second part");
    let packed = e.finish().unwrap();
    assert_eq!(&packed[..2], &[9, 9]);
    // The flush ends a block, so the stream is longer than the plain one.
    assert!(packed.len() - 2 > plain.len());
    let mut d = DecoderReader::new(packed[2..].to_vec()).unwrap();
    let mut out = Vec::new();
    assert_eq!(read_to_end(&mut d, &mut out), Ok(()));
    assert_eq!(out, b"first part, second part");
}

#[test]
fn checksum_of_one_letter() {
    let mut c = Crc32::new();
    assert_eq!(c.sum(), 0);
    c.update(b"a");
    assert_eq!(c.sum(), 0xE8B7BE43);
    assert_eq!(c.amt_as_u32(), 1);
}

#[test]
fn encoder_reader_gives_its_source_back() {
    let data = b"0123456789".to_vec();
    let fresh = EncoderReaderBuf::new(Source { data: data.clone(), pos: 4 }, GzQuality::Default);
    let back = fresh.into_inner();
    assert_eq!(back.data, data);
    assert_eq!(back.pos, 4);

    let mut e = EncoderReaderBuf::new(Source { data: data.clone(), pos: 4 }, GzQuality::Default);
    let mut packed = Vec::new();
    let mut chunk = [0u8; 64];
    loop {
        let n = e.read(&mut chunk).unwrap();
        if n == 0 {
            break;
        }
        packed.extend_from_slice(&chunk[..n]);
    }
    let back = e.into_inner();
    assert_eq!(back.data, data);
    assert_eq!(back.pos, 10);
    let mut d = DecoderReader::new(packed).unwrap();
    let mut out = Vec::new();
    assert_eq!(read_to_end(&mut d, &mut out), Ok(()));
    assert_eq!(out, b"456789");
}
