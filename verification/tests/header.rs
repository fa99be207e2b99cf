use car::header::{
    what_format, BrMode, BrotliSetup, BzQuality, Format, GzQuality, Lz4BMode, Lz4BSize,
    Lz4Checksum, Lz4Setup, Quality, QualityError,
};

fn table() -> Vec<(Vec<u8>, Format)> {
    let d = Quality::Default;
    vec![
        (vec![0x1F, 0x9D], Format::LZW(d)),
        (vec![0x1F, 0xA0], Format::LZH(d)),
        (vec![0x1F, 0x8B], Format::Gzip(d)),
        (vec![0x30, 0x30], Format::Tar(d)),
        (vec![0x20, 0x00], Format::Tar(d)),
        (vec![0x37, 0x7A, 0xBC], Format::Xz(d)),
        (vec![0xAF, 0x27, 0x1C], Format::Xz(d)),
        (vec![0x42, 0x5A, 0x68], Format::Bzip2(d)),
        (vec![0x75, 0x73, 0x74], Format::Tar(d)),
        (vec![0x61, 0x72, 0x20], Format::Tar(d)),
        (vec![0x61, 0x72, 0x00], Format::Tar(d)),
        (vec![0x81, 0xCF, 0xB2, 0xCE], Format::Brotli(d)),
        (vec![0xCE, 0xB2, 0xCF, 0x81], Format::Brotli(d)),
        (vec![0x18, 0x4D, 0x22, 0x04], Format::Lz4(d)),
        (vec![0x04, 0x22, 0x4D, 0x18], Format::Lz4(d)),
        (vec![0xB5, 0x28, 0xFD, 0x2F], Format::Zstd(d)),
        (vec![0x28, 0xB5, 0x2F, 0xFD], Format::Zstd(d)),
        (vec![0x27, 0xB5, 0x2F, 0xFD], Format::Zstd(d)),
        (vec![0xFD, 0x2F, 0xB5, 0x27], Format::Zstd(d)),
        (vec![0xFD, 0x2F, 0xB5, 0x28], Format::Zstd(d)),
        (vec![0xFD, 0x37, 0x7A, 0x58, 0x5A, 0x00], Format::Xz(d)),
        (
            vec![0xFF, 0x06, 0x00, 0x73, 0x4E, 0x61, 0x50, 0x70, 0x59],
            Format::Snappy(d),
        ),
    ]
}

#[test]
fn every_magic_prefix_is_recognised() {
    for (prefix, format) in table() {
        assert_eq!(what_format(&prefix), Some(format), "{:02x?}", prefix);
    }
}

#[test]
fn every_magic_prefix_is_recognised_with_padding() {
    for (prefix, format) in table() {
        let mut padded = prefix.clone();
        while padded.len() < 16 {
            padded.push(0);
        }
        assert_eq!(what_format(&padded), Some(format), "{:02x?}", prefix);
        let mut padded = prefix.clone();
        while padded.len() < 16 {
            padded.push(0xFF);
        }
        assert_eq!(what_format(&padded), Some(format), "{:02x?}", prefix);
    }
}

#[test]
fn cut_magic_prefix_is_unknown() {
    for (prefix, _) in table() {
        let cut = &prefix[..prefix.len() - 1];
        assert_eq!(what_format(cut), None, "{:02x?}", cut);
    }
}

#[test]
fn short_input_is_unknown() {
    assert_eq!(what_format(&[]), None);
    assert_eq!(what_format(&[0x1F]), None);
    assert_eq!(what_format(&[0x42]), None);
}

#[test]
fn unmatched_input_is_unknown() {
    assert_eq!(what_format(&[0u8; 16]), None);
    assert_eq!(what_format(b"plain text here!"), None);
    assert_eq!(what_format(&[0x1F, 0x8C, 0, 0, 0, 0, 0, 0, 0, 0]), None);
}

#[test]
fn sniffed_format_carries_default_quality() {
    let f = what_format(&[0x1F, 0x8B, 8, 0]).unwrap();
    assert_eq!(f.quality(), Quality::Default);
}

#[test]
fn extensions() {
    let d = Quality::Default;
    assert_eq!(Format::LZW(d).get_extension(), "z");
    assert_eq!(Format::LZH(d).get_extension(), "z");
    assert_eq!(Format::Zip7(d).get_extension(), "7z");
    assert_eq!(Format::Gzip(d).get_extension(), "gz");
    assert_eq!(Format::Bzip2(d).get_extension(), "bz2");
    assert_eq!(Format::Xz(d).get_extension(), "xz");
    assert_eq!(Format::Brotli(d).get_extension(), "br");
    assert_eq!(Format::Lz4(d).get_extension(), "lz4");
    assert_eq!(Format::Snappy(d).get_extension(), "sz");
    assert_eq!(Format::Zstd(d).get_extension(), "zst");
    assert_eq!(Format::Tar(d).get_extension(), "tar");
}

#[test]
fn default_quality_is_default() {
    assert_eq!(Quality::default(), Quality::Default);
}

#[test]
fn xz_levels() {
    assert_eq!(Quality::FastLow.into_xz(), 0);
    assert_eq!(Quality::Default.into_xz(), 3);
    assert_eq!(Quality::SlowHigh.into_xz(), 7);
    assert_eq!(Quality::ZstdSpecial(4).into_xz(), 3);
}

#[test]
fn bz_and_gz_levels() {
    assert_eq!(Quality::FastLow.into_bz(), BzQuality::Fastest);
    assert_eq!(Quality::Default.into_bz(), BzQuality::Default);
    assert_eq!(Quality::SlowHigh.into_bz(), BzQuality::Best);
    assert_eq!(BzQuality::Fastest.level(), 1);
    assert_eq!(BzQuality::Default.level(), 6);
    assert_eq!(BzQuality::Best.level(), 9);
    assert_eq!(Quality::FastLow.into_gz(), GzQuality::Fast);
    assert_eq!(Quality::Default.into_gz(), GzQuality::Default);
    assert_eq!(Quality::SlowHigh.into_gz(), GzQuality::Best);
    assert_eq!(GzQuality::Fast.level(), 1);
    assert_eq!(GzQuality::Default.level(), 6);
    assert_eq!(GzQuality::Best.level(), 9);
}

#[test]
fn zstd_levels() {
    assert_eq!(Quality::FastLow.into_zstd(), Ok(1));
    assert_eq!(Quality::Default.into_zstd(), Ok(10));
    assert_eq!(Quality::SlowHigh.into_zstd(), Ok(21));
    assert_eq!(Quality::ZstdSpecial(1).into_zstd(), Ok(1));
    assert_eq!(Quality::ZstdSpecial(21).into_zstd(), Ok(21));
    assert_eq!(Quality::ZstdSpecial(17).into_zstd(), Ok(17));
    assert_eq!(
        Quality::ZstdSpecial(0).into_zstd(),
        Err(QualityError::ZstdLevel(0))
    );
    assert_eq!(
        Quality::ZstdSpecial(22).into_zstd(),
        Err(QualityError::ZstdLevel(22))
    );
    assert_eq!(
        Quality::ZstdSpecial(-3).into_zstd(),
        Err(QualityError::ZstdLevel(-3))
    );
}

#[test]
fn brotli_setups() {
    assert_eq!(Quality::FastLow.into_brotli(), Ok(BrotliSetup::Level(2)));
    assert_eq!(Quality::Default.into_brotli(), Ok(BrotliSetup::Level(5)));
    assert_eq!(
        Quality::SlowHigh.into_brotli(),
        Ok(BrotliSetup::Params(BrMode::Text, 11, 24, 24))
    );
    assert_eq!(
        Quality::BrotliSpecial(BrMode::Font, 0, 20, 16).into_brotli(),
        Ok(BrotliSetup::Params(BrMode::Font, 0, 20, 16))
    );
    assert_eq!(
        Quality::BrotliSpecial(BrMode::Generic, 11, 22, 0).into_brotli(),
        Ok(BrotliSetup::Params(BrMode::Generic, 11, 22, 0))
    );
    assert_eq!(
        Quality::BrotliSpecial(BrMode::Generic, 12, 22, 0).into_brotli(),
        Err(QualityError::BrotliQuality(12))
    );
}

#[test]
fn lz4_setups() {
    assert_eq!(
        Quality::FastLow.into_lz4(),
        Ok(Lz4Setup {
            block_size: Lz4BSize::Default,
            block_mode: Lz4BMode::Linked,
            checksum: Lz4Checksum::NoChecksum,
            level: 1
        })
    );
    assert_eq!(
        Quality::Default.into_lz4(),
        Ok(Lz4Setup {
            block_size: Lz4BSize::Default,
            block_mode: Lz4BMode::Linked,
            checksum: Lz4Checksum::ChecksumEnabled,
            level: 0
        })
    );
    assert_eq!(
        Quality::SlowHigh.into_lz4(),
        Ok(Lz4Setup {
            block_size: Lz4BSize::Max4MB,
            block_mode: Lz4BMode::Linked,
            checksum: Lz4Checksum::ChecksumEnabled,
            level: 16
        })
    );
    assert_eq!(
        Quality::Lz4Special(
            Lz4BSize::Max1MB,
            Lz4BMode::Independent,
            Lz4Checksum::NoChecksum,
            16
        )
        .into_lz4(),
        Ok(Lz4Setup {
            block_size: Lz4BSize::Max1MB,
            block_mode: Lz4BMode::Independent,
            checksum: Lz4Checksum::NoChecksum,
            level: 16
        })
    );
    assert_eq!(
        Quality::Lz4Special(
            Lz4BSize::Max1MB,
            Lz4BMode::Independent,
            Lz4Checksum::NoChecksum,
            17
        )
        .into_lz4(),
        Err(QualityError::Lz4Level(17))
    );
}

#[test]
fn fast_is_never_above_default_nor_slow_below() {
    assert!(Quality::FastLow.into_xz() <= Quality::Default.into_xz());
    assert!(Quality::Default.into_xz() <= Quality::SlowHigh.into_xz());
    assert!(Quality::FastLow.into_gz().level() <= Quality::Default.into_gz().level());
    assert!(Quality::Default.into_gz().level() <= Quality::SlowHigh.into_gz().level());
    assert!(Quality::FastLow.into_bz().level() <= Quality::Default.into_bz().level());
    assert!(Quality::Default.into_bz().level() <= Quality::SlowHigh.into_bz().level());
    assert!(Quality::FastLow.into_zstd().unwrap() <= Quality::Default.into_zstd().unwrap());
    assert!(Quality::Default.into_zstd().unwrap() <= Quality::SlowHigh.into_zstd().unwrap());
}
