use car::cli::{
    get_comp_level, get_mode, item_exists, size_unit, top_level, valid_dir, valid_item,
    valid_path, what_do, ItemFault, ItemState, Mode, ModeError, Operation, TopFault, Unit,
};
use car::comp::Comp;
use car::header::{Format, Quality};

#[test]
fn create_cords() {
    let d = Quality::Default;
    let cases: &[(&str, Format)] = &[
        ("czf", Format::Gzip(d)),
        ("cfz", Format::Gzip(d)),
        ("cjf", Format::Bzip2(d)),
        ("cfj", Format::Bzip2(d)),
        ("cbJf", Format::Xz(d)),
        ("cfJ", Format::Xz(d)),
        ("cf4", Format::Lz4(d)),
        ("c4f", Format::Lz4(d)),
        ("cDf", Format::Zstd(d)),
        ("cfD", Format::Zstd(d)),
        ("cSf", Format::Snappy(d)),
        ("cfS", Format::Snappy(d)),
        ("cBf", Format::Brotli(d)),
        ("cfB", Format::Brotli(d)),
        ("cf", Format::Tar(d)),
    ];
    for (cord, format) in cases {
        assert_eq!(get_mode(cord.as_bytes()), Ok(Mode::Create(*format)), "{}", cord);
    }
}

#[test]
fn extract_cord() {
    assert_eq!(get_mode(b"xf"), Ok(Mode::Extract));
    assert_eq!(what_do(b"xf"), Some((Mode::Extract, 2)));
}

#[test]
fn help_and_version_cords() {
    for cord in [
        "h", "-h", "--h", "-help", "--help", "--HELP", "HELP", "help", "H", "-H",
    ] {
        assert_eq!(get_mode(cord.as_bytes()), Ok(Mode::Help), "{}", cord);
    }
    for cord in ["-v", "--version", "-V", "--v", "--V", "-version"] {
        assert_eq!(get_mode(cord.as_bytes()), Ok(Mode::Version), "{}", cord);
    }
}

#[test]
fn help_and_version_ignore_what_follows() {
    assert_eq!(get_mode(b"hello"), Ok(Mode::Help));
    assert_eq!(get_mode(b"-hx"), Ok(Mode::Help));
    assert_eq!(get_mode(b"-v2"), Ok(Mode::Version));
    assert_eq!(what_do(b"-help"), Some((Mode::Help, 2)));
    assert_eq!(what_do(b"help"), Some((Mode::Help, 1)));
}

#[test]
fn other_cords_must_end_with_the_spelling() {
    assert_eq!(get_mode(b"xfz"), Err(ModeError::Trailing));
    assert_eq!(get_mode(b"cfx"), Err(ModeError::Trailing));
    assert_eq!(get_mode(b"czfz"), Err(ModeError::Trailing));
    assert_eq!(
        what_do(b"cfx"),
        Some((Mode::Create(Format::Tar(Quality::Default)), 2))
    );
}

#[test]
fn unknown_cords_are_not_understood() {
    for cord in ["", "c", "x", "cJf", "cz", "tf", "-", "--", "zf", "fc"] {
        assert_eq!(
            get_mode(cord.as_bytes()),
            Err(ModeError::NotUnderstood),
            "{}",
            cord
        );
        assert_eq!(what_do(cord.as_bytes()), None, "{}", cord);
    }
}

#[test]
fn compression_level_flags() {
    assert_eq!(get_comp_level(false, false), Quality::Default);
    assert_eq!(get_comp_level(true, false), Quality::FastLow);
    assert_eq!(get_comp_level(false, true), Quality::SlowHigh);
    assert_eq!(get_comp_level(true, true), Quality::FastLow);
}

#[test]
fn item_checks() {
    assert_eq!(valid_item(true, true, false), Ok(()));
    assert_eq!(valid_item(true, false, true), Ok(()));
    assert_eq!(valid_item(false, false, false), Err(ItemFault::Missing));
    assert_eq!(valid_item(false, true, true), Err(ItemFault::Missing));
    assert_eq!(valid_item(true, false, false), Err(ItemFault::Special));
    assert_eq!(item_exists(true), Err(ItemFault::Exists));
    assert_eq!(item_exists(false), Ok(()));
    assert_eq!(valid_path(true, true), Ok(()));
    assert_eq!(valid_path(false, false), Err(ItemFault::Missing));
    assert_eq!(valid_path(true, false), Err(ItemFault::NotAFile));
    assert_eq!(valid_dir(true, true), Ok(()));
    assert_eq!(valid_dir(false, true), Err(ItemFault::Missing));
    assert_eq!(valid_dir(true, false), Err(ItemFault::NotADir));
}

#[test]
fn item_states() {
    let p = b"some/path".to_vec();
    assert_eq!(
        ItemState::conversion(p.clone(), true, false, true),
        Ok(ItemState::ExistsDir(p.clone()))
    );
    assert_eq!(
        ItemState::conversion(p.clone(), false, true, true),
        Ok(ItemState::ExistsFile(p.clone()))
    );
    assert_eq!(
        ItemState::conversion(p.clone(), false, false, true),
        Err(ItemFault::Special)
    );
    assert_eq!(
        ItemState::conversion(p.clone(), false, false, false),
        Ok(ItemState::NotExist(p.clone()))
    );
    assert!(ItemState::ExistsDir(p.clone()).does_exist());
    assert!(ItemState::ExistsFile(p.clone()).does_exist());
    assert!(!ItemState::NotExist(p).does_exist());
}

#[test]
fn operations_read_or_write() {
    let list = Operation::List(b"a.tar".to_vec(), None, true, false, false, false, false, true);
    assert!(list.is_read_action());
    assert!(!list.is_write_action());
    let extract = Operation::Extract(b"a.tar".to_vec(), None, None, false, false);
    assert!(extract.is_read_action());
    assert!(!extract.is_write_action());
    let comp = Comp::from_format(Format::Tar(Quality::Default), Vec::new()).unwrap();
    let create = Operation::Create(comp, vec![b"dir".to_vec()]);
    assert!(!create.is_read_action());
    assert!(create.is_write_action());
}

#[test]
fn top_level_decisions() {
    let p = b"out.tar".to_vec();
    let f = Format::Zstd(Quality::Default);
    assert_eq!(top_level(Mode::Create(f), &ItemState::NotExist(p.clone())), Ok(f));
    assert_eq!(
        top_level(Mode::Create(f), &ItemState::ExistsFile(p.clone())),
        Err(TopFault::WouldOverwrite)
    );
    assert_eq!(
        top_level(Mode::Create(f), &ItemState::ExistsDir(p.clone())),
        Err(TopFault::IntoDirectory)
    );
    assert_eq!(
        top_level(Mode::Extract, &ItemState::NotExist(p.clone())),
        Err(TopFault::NothingToExtract)
    );
    assert_eq!(
        top_level(Mode::Extract, &ItemState::ExistsDir(p.clone())),
        Err(TopFault::ExtractsDirectory)
    );
    assert_eq!(
        top_level(Mode::Extract, &ItemState::ExistsFile(p.clone())),
        Err(TopFault::NotOffered)
    );
    assert_eq!(
        top_level(Mode::Help, &ItemState::NotExist(p.clone())),
        Err(TopFault::NoAction)
    );
    assert_eq!(
        top_level(Mode::Version, &ItemState::ExistsFile(p)),
        Err(TopFault::NoAction)
    );
}

#[test]
fn size_units() {
    assert_eq!(size_unit(0), (Unit::B, 1));
    assert_eq!(size_unit(1024), (Unit::B, 1));
    assert_eq!(size_unit(1025), (Unit::KiB, 1024));
    assert_eq!(size_unit(1048576), (Unit::KiB, 1024));
    assert_eq!(size_unit(1048577), (Unit::MiB, 1048576));
    assert_eq!(size_unit(1073741824), (Unit::MiB, 1048576));
    assert_eq!(size_unit(1073741825), (Unit::GiB, 1073741824));
    assert_eq!(size_unit(1099511627776), (Unit::GiB, 1073741824));
    assert_eq!(size_unit(1099511627777), (Unit::TiB, 1099511627776));
    assert_eq!(size_unit(u64::MAX), (Unit::TiB, 1099511627776));
}
