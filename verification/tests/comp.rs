use car::comp::{decomp, from_reader, Comp, CompError, Decomp};
use car::source::Source;
use car::gz::crc::GzError;
use car::header::{BrMode, Format, Lz4BMode, Lz4BSize, Lz4Checksum, Quality, QualityError};

fn write_all(c: &mut Comp, mut data: &[u8]) {
    while !data.is_empty() {
        let n = c.write(data).unwrap();
        assert!(n > 0);
        data = &data[n..];
    }
}

fn read_to_end(d: &mut Decomp) -> Result<Vec<u8>, CompError> {
    let mut out = Vec::new();
    let mut chunk = vec![0u8; 4096];
    loop {
        let n = d.read(&mut chunk)?;
        if n == 0 {
            return Ok(out);
        }
        out.extend_from_slice(&chunk[..n]);
    }
}

fn pack(f: Format, data: &[u8]) -> Vec<u8> {
    let mut c = Comp::from_format(f, Vec::new()).unwrap();
    write_all(&mut c, data);
    c.flush().unwrap();
    c.finish().unwrap()
}

fn unpack_as(f: Format, packed: Vec<u8>) -> Vec<u8> {
    let mut d = Decomp::from_known(f, packed).unwrap();
    read_to_end(&mut d).unwrap()
}

fn supported(q: Quality) -> Vec<Format> {
    vec![
        Format::Gzip(q),
        Format::Bzip2(q),
        Format::Xz(q),
        Format::Brotli(q),
        Format::Lz4(q),
        Format::Snappy(q),
        Format::Zstd(q),
        Format::Tar(q),
    ]
}

fn sample() -> Vec<u8> {
    let mut v = Vec::new();
    for i in 0..50_000u32 {
        v.push((i % 251) as u8);
        v.push((i / 7 % 13) as u8);
    }
    v
}

#[test]
fn every_format_round_trips() {
    let data = sample();
    for q in [Quality::Default, Quality::FastLow, Quality::SlowHigh] {
        for f in supported(q) {
            let packed = pack(f, &data);
            assert_eq!(unpack_as(f, packed), data, "{:?}", f);
        }
    }
}

#[test]
fn every_format_round_trips_the_empty_input() {
    for f in supported(Quality::Default) {
        let packed = pack(f, b"");
        assert_eq!(unpack_as(f, packed), b"", "{:?}", f);
    }
}

#[test]
fn every_format_round_trips_a_short_text() {
    for f in supported(Quality::Default) {
        let packed = pack(f, b"foo bar baz");
        assert_eq!(unpack_as(f, packed), b"foo bar baz", "{:?}", f);
    }
}

#[test]
fn escapes_in_range_round_trip() {
    let data = sample();
    let formats = [
        Format::Zstd(Quality::ZstdSpecial(3)),
        Format::Brotli(Quality::BrotliSpecial(BrMode::Generic, 4, 22, 0)),
        Format::Lz4(Quality::Lz4Special(
            Lz4BSize::Max256KB,
            Lz4BMode::Independent,
            Lz4Checksum::ChecksumEnabled,
            9,
        )),
    ];
    for f in formats {
        let packed = pack(f, &data);
        assert_eq!(unpack_as(f, packed), data, "{:?}", f);
    }
}

#[test]
fn codecs_really_compress() {
    let data = vec![7u8; 100_000];
    for f in supported(Quality::Default) {
        let packed = pack(f, &data);
        if let Format::Tar(_) = f {
            assert_eq!(packed, data);
        } else {
            assert!(packed.len() < data.len() / 10, "{:?}", f);
            assert!(packed != data);
        }
    }
}

#[test]
fn plain_container_passes_bytes_through() {
    let mut c = Comp::from_format(Format::Tar(Quality::SlowHigh), vec![1, 2]).unwrap();
    assert_eq!(c.write(b"abc").unwrap(), 3);
    assert_eq!(c.write(b"").unwrap(), 0);
    assert_eq!(c.write(b"de").unwrap(), 2);
    assert_eq!(c.finish().unwrap(), vec![1, 2, b'a', b'b', b'c', b'd', b'e']);

    let mut d = Decomp::from_known(Format::Tar(Quality::Default), b"hello".to_vec()).unwrap();
    let mut buf = [0u8; 3];
    assert_eq!(d.read(&mut buf).unwrap(), 3);
    assert_eq!(&buf, b"hel");
    assert_eq!(d.read(&mut buf).unwrap(), 2);
    assert_eq!(&buf[..2], b"lo");
    assert_eq!(d.read(&mut buf).unwrap(), 0);
    let mut none: [u8; 0] = [];
    assert_eq!(d.read(&mut none).unwrap(), 0);
}

#[test]
fn sink_keeps_what_it_held() {
    for f in supported(Quality::Default) {
        let mut c = Comp::from_format(f, vec![9, 9, 9]).unwrap();
        write_all(&mut c, b"payload");
        let out = c.finish().unwrap();
        assert_eq!(&out[..3], &[9, 9, 9], "{:?}", f);
        assert_eq!(unpack_as(f, out[3..].to_vec()), b"payload", "{:?}", f);
    }
}

#[test]
fn formats_without_codec_are_unsupported() {
    let d = Quality::Default;
    for f in [Format::Zip7(d), Format::LZW(d), Format::LZH(d)] {
        match Comp::from_format(f, Vec::new()) {
            Err(CompError::Unsupported(g)) => assert_eq!(g, f),
            _ => panic!("{:?}", f),
        }
    }
    for f in [Format::LZW(d), Format::LZH(d)] {
        match Decomp::from_known(f, vec![0x1F, 0x9D, 0, 0]) {
            Err(CompError::Unsupported(g)) => assert_eq!(g, f),
            _ => panic!("{:?}", f),
        }
    }
}

#[test]
fn sniffed_legacy_formats_are_unsupported() {
    assert!(matches!(
        Decomp::from_unknown(vec![0x1F, 0x9D, 1, 2, 3]),
        Err(CompError::Unsupported(Format::LZW(Quality::Default)))
    ));
    assert!(matches!(
        Decomp::from_unknown(vec![0x1F, 0xA0, 1, 2, 3]),
        Err(CompError::Unsupported(Format::LZH(Quality::Default)))
    ));
}

#[test]
fn unknown_magic_is_refused() {
    assert!(matches!(
        Decomp::from_unknown(b"certainly not an archive".to_vec()),
        Err(CompError::Unknown)
    ));
    assert!(matches!(
        Decomp::from_unknown(Vec::new()),
        Err(CompError::Unknown)
    ));
    assert!(matches!(
        Decomp::from_unknown(vec![0x1F]),
        Err(CompError::Unknown)
    ));
}

#[test]
fn quality_out_of_range_fails_before_any_byte() {
    assert!(matches!(
        Comp::from_format(Format::Zstd(Quality::ZstdSpecial(22)), Vec::new()),
        Err(CompError::Quality(QualityError::ZstdLevel(22)))
    ));
    assert!(matches!(
        Comp::from_format(Format::Zstd(Quality::ZstdSpecial(0)), Vec::new()),
        Err(CompError::Quality(QualityError::ZstdLevel(0)))
    ));
    assert!(matches!(
        Comp::from_format(
            Format::Brotli(Quality::BrotliSpecial(BrMode::Text, 12, 22, 0)),
            Vec::new()
        ),
        Err(CompError::Quality(QualityError::BrotliQuality(12)))
    ));
    assert!(matches!(
        Comp::from_format(
            Format::Lz4(Quality::Lz4Special(
                Lz4BSize::Default,
                Lz4BMode::Linked,
                Lz4Checksum::NoChecksum,
                17
            )),
            Vec::new()
        ),
        Err(CompError::Quality(QualityError::Lz4Level(17)))
    ));
}

#[test]
fn escape_of_another_codec_counts_as_default() {
    let data = sample();
    let f = Format::Gzip(Quality::ZstdSpecial(99));
    let packed = pack(f, &data);
    assert_eq!(packed, pack(Format::Gzip(Quality::Default), &data));
    let f = Format::Xz(Quality::ZstdSpecial(99));
    assert_eq!(unpack_as(f, pack(f, &data)), data);
}

#[test]
fn streams_with_real_magic_are_sniffed() {
    let data = sample();
    let d = Quality::Default;
    for f in [Format::Gzip(d), Format::Bzip2(d), Format::Xz(d), Format::Zstd(d), Format::Lz4(d)] {
        let packed = pack(f, &data);
        let mut dec = Decomp::from_unknown(packed).unwrap();
        assert_eq!(read_to_end(&mut dec).unwrap(), data, "{:?}", f);
    }
}

#[test]
fn sniffed_tar_is_passed_through() {
    let mut bytes = b"00 a plain container".to_vec();
    bytes.extend_from_slice(&[0u8; 32]);
    let mut dec = Decomp::from_unknown(bytes.clone()).unwrap();
    assert_eq!(read_to_end(&mut dec).unwrap(), bytes);
}

#[test]
fn seven_zip_tag_is_read_as_xz() {
    let data = sample();
    let packed = pack(Format::Xz(Quality::Default), &data);
    assert_eq!(unpack_as(Format::Zip7(Quality::Default), packed), data);
}

#[test]
fn gzip_with_flipped_trailer_byte_is_corrupt() {
    let data = sample();
    for i in 0..8 {
        let mut packed = pack(Format::Gzip(Quality::Default), &data);
        let at = packed.len() - 8 + i;
        packed[at] ^= 0x80;
        let mut d = Decomp::from_known(Format::Gzip(Quality::Default), packed).unwrap();
        let mut out = Vec::new();
        let mut chunk = vec![0u8; 1 << 16];
        let end = loop {
            match d.read(&mut chunk) {
                Ok(0) => break Ok(()),
                Ok(n) => out.extend_from_slice(&chunk[..n]),
                Err(e) => break Err(e),
            }
        };
        assert!(matches!(end, Err(CompError::Gz(GzError::Corrupt))));
        assert_eq!(out, data);
    }
}

#[test]
fn gzip_without_header_is_refused_at_once() {
    assert!(matches!(
        Decomp::from_known(Format::Gzip(Quality::Default), b"not gzip at all".to_vec()),
        Err(CompError::Gz(GzError::BadHeader))
    ));
    assert!(matches!(
        Decomp::from_known(Format::Gzip(Quality::Default), vec![0x1f, 0x8b]),
        Err(CompError::Gz(GzError::UnexpectedEof))
    ));
}

#[test]
fn cut_xz_stream_is_flagged() {
    let data = sample();
    let mut packed = pack(Format::Xz(Quality::Default), &data);
    let n = packed.len();
    packed.truncate(n - 4);
    let mut dec = Decomp::from_known(Format::Xz(Quality::Default), packed).unwrap();
    assert!(matches!(
        read_to_end(&mut dec),
        Err(CompError::Xz(car::xz::bufread::XzError::Truncated))
    ));
}

#[test]
fn cut_gzip_stream_is_flagged() {
    let data = sample();
    let packed = pack(Format::Gzip(Quality::Default), &data);
    for keep in [packed.len() - 1, packed.len() - 8, packed.len() - 9, packed.len() / 2, 12] {
        let mut cut = packed.clone();
        cut.truncate(keep);
        let mut dec = Decomp::from_known(Format::Gzip(Quality::Default), cut).unwrap();
        assert!(read_to_end(&mut dec).is_err(), "{}", keep);
    }
}

#[test]
fn damaged_deflate_data_is_flagged() {
    let mut bytes = vec![0x1f, 0x8b, 8, 0, 0, 0, 0, 0, 0, 255];
    bytes.extend_from_slice(&[0xFF; 64]);
    let mut dec = Decomp::from_known(Format::Gzip(Quality::Default), bytes).unwrap();
    assert!(matches!(
        read_to_end(&mut dec),
        Err(CompError::Gz(GzError::Deflate))
    ));
}

#[test]
fn flipped_bit_in_the_integrity_trailer_is_an_error() {
    let data = sample();
    let d = Quality::Default;
    // Where the integrity check of each format ends, counted from the end
    // of the stream.
    let cases = [
        (Format::Gzip(d), 5usize),
        (Format::Bzip2(d), 1),
        (Format::Xz(d), 25),
        (Format::Lz4(d), 1),
        (Format::Snappy(d), 1),
    ];
    for (f, back) in cases {
        let mut packed = pack(f, &data);
        let at = packed.len() - back;
        packed[at] ^= 0x04;
        let read = match Decomp::from_known(f, packed) {
            Ok(mut dec) => read_to_end(&mut dec),
            Err(e) => Err(e),
        };
        assert!(read.is_err(), "{:?}", f);
    }
}

#[test]
fn infallible_constructors() {
    let data = sample();
    let d = Quality::SlowHigh;
    for f in [Format::Bzip2(d), Format::Gzip(d), Format::Snappy(d)] {
        let mut c = Comp::from(f, Vec::new()).unwrap();
        write_all(&mut c, &data);
        let packed = c.finish().unwrap();
        assert_eq!(packed, pack(f.clone_with_default(), &data), "{:?}", f);
    }
    for f in [Format::Bzip2(d), Format::Snappy(d)] {
        let packed = pack(f, &data);
        let mut dec = decomp(f, packed).unwrap();
        assert_eq!(read_to_end(&mut dec).unwrap(), data);
    }
}

trait WithDefault {
    fn clone_with_default(&self) -> Format;
}

impl WithDefault for Format {
    fn clone_with_default(&self) -> Format {
        match self {
            Format::Bzip2(_) => Format::Bzip2(Quality::Default),
            Format::Gzip(_) => Format::Gzip(Quality::Default),
            Format::Snappy(_) => Format::Snappy(Quality::Default),
            other => *other,
        }
    }
}

#[test]
fn format_is_read_from_the_first_bytes_and_the_source_rewound() {
    let mut bytes = vec![0x42, 0x5A, 0x68, 0x39];
    bytes.extend_from_slice(&[0u8; 40]);
    let mut src = Source::new(bytes.clone());
    src.consume(7);
    assert_eq!(from_reader(&mut src), Some(Format::Bzip2(Quality::Default)));
    assert_eq!(src.pos, 0);
    assert_eq!(src.into_inner(), bytes);

    let mut short = Source::new(vec![0x1F]);
    assert_eq!(from_reader(&mut short), None);
    let mut empty = Source::new(Vec::new());
    assert_eq!(from_reader(&mut empty), None);
}

#[test]
fn only_the_first_bytes_decide_the_format() {
    let mut a = vec![0xFD, 0x37, 0x7A, 0x58, 0x5A, 0x00];
    a.extend_from_slice(&[0x1F, 0x8B, 0x1F, 0x8B, 0x1F, 0x8B, 0x1F, 0x8B, 0x1F, 0x8B, 0x1F]);
    let mut b = a.clone();
    b.extend_from_slice(b"whatever follows the sixteenth byte");
    assert_eq!(
        from_reader(&mut Source::new(a)),
        from_reader(&mut Source::new(b))
    );
}

#[test]
fn old_constructors_refuse_other_formats() {
    let d = Quality::Default;
    for f in [Format::Xz(d), Format::Tar(d), Format::LZW(d), Format::Zstd(d)] {
        assert!(matches!(Comp::from(f, Vec::new()), Err(CompError::Unsupported(g)) if g == f));
    }
    for f in [Format::Gzip(d), Format::Xz(d), Format::Tar(d), Format::LZH(d)] {
        assert!(matches!(decomp(f, Vec::new()), Err(CompError::Unsupported(g)) if g == f));
    }
}
