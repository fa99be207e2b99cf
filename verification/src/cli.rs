//! What the command line asks for.
//!
//! The first argument is a cord of flags in the manner of tar, such as
//! `czf` or `xf`. It is read against a fixed list of spellings, and the
//! first spelling that stands at its start decides the mode.

use crate::comp::Comp;
use crate::header::{has_prefix, Format, Quality};
use regex::Regex;
use vstd::prelude::*;

verus! {

/// What mode the program is in.
#[derive(Clone, Copy, Debug, PartialEq, Eq, Structural)]
pub enum Mode {
    Create(Format),
    Extract,
    Help,
    Version,
}

/// Why a cord of flags is refused.
#[derive(Clone, Copy, Debug, PartialEq, Eq, Structural)]
pub enum ModeError {
    /// No known spelling stands at the start of the cord.
    NotUnderstood,
    /// A spelling was read, and something follows it.
    Trailing,
}

/// The spellings, with the mode each stands for, in the order in which they
/// are tried.
///
/// Help: `h`, `-h`, `--h`, `-help`, `--help`, `--HELP`, `HELP`, `help`, `H`,
/// `-H`. Version: `-v`, `--version`, `-V`, `--v`, `--V`, `-version`.
/// Create: `czf` or `cfz` for gzip, `cjf` or `cfj` for bzip2, `cbJf` or
/// `cfJ` for xz, `cf4` or `c4f` for lz4, `cDf` or `cfD` for zstd, `cSf` or
/// `cfS` for snappy, `cBf` or `cfB` for brotli, `cf` without compression.
/// Extract: `xf`.
pub open spec fn mode_table() -> Seq<(Seq<u8>, Mode)> {
    seq![
        (seq![0x68u8], Mode::Help),
        (seq![0x2du8, 0x68u8], Mode::Help),
        (seq![0x2du8, 0x2du8, 0x68u8], Mode::Help),
        (seq![0x2du8, 0x68u8, 0x65u8, 0x6cu8, 0x70u8], Mode::Help),
        (seq![0x2du8, 0x2du8, 0x68u8, 0x65u8, 0x6cu8, 0x70u8], Mode::Help),
        (seq![0x2du8, 0x2du8, 0x48u8, 0x45u8, 0x4cu8, 0x50u8], Mode::Help),
        (seq![0x48u8, 0x45u8, 0x4cu8, 0x50u8], Mode::Help),
        (seq![0x68u8, 0x65u8, 0x6cu8, 0x70u8], Mode::Help),
        (seq![0x48u8], Mode::Help),
        (seq![0x2du8, 0x48u8], Mode::Help),
        (seq![0x2du8, 0x76u8], Mode::Version),
        (seq![0x2du8, 0x2du8, 0x76u8, 0x65u8, 0x72u8, 0x73u8, 0x69u8, 0x6fu8, 0x6eu8], Mode::Version),
        (seq![0x2du8, 0x56u8], Mode::Version),
        (seq![0x2du8, 0x2du8, 0x76u8], Mode::Version),
        (seq![0x2du8, 0x2du8, 0x56u8], Mode::Version),
        (seq![0x2du8, 0x76u8, 0x65u8, 0x72u8, 0x73u8, 0x69u8, 0x6fu8, 0x6eu8], Mode::Version),
        (seq![0x63u8, 0x7au8, 0x66u8], Mode::Create(Format::Gzip(Quality::Default))),
        (seq![0x63u8, 0x66u8, 0x7au8], Mode::Create(Format::Gzip(Quality::Default))),
        (seq![0x63u8, 0x6au8, 0x66u8], Mode::Create(Format::Bzip2(Quality::Default))),
        (seq![0x63u8, 0x66u8, 0x6au8], Mode::Create(Format::Bzip2(Quality::Default))),
        (seq![0x63u8, 0x62u8, 0x4au8, 0x66u8], Mode::Create(Format::Xz(Quality::Default))),
        (seq![0x63u8, 0x66u8, 0x4au8], Mode::Create(Format::Xz(Quality::Default))),
        (seq![0x63u8, 0x66u8, 0x34u8], Mode::Create(Format::Lz4(Quality::Default))),
        (seq![0x63u8, 0x34u8, 0x66u8], Mode::Create(Format::Lz4(Quality::Default))),
        (seq![0x63u8, 0x44u8, 0x66u8], Mode::Create(Format::Zstd(Quality::Default))),
        (seq![0x63u8, 0x66u8, 0x44u8], Mode::Create(Format::Zstd(Quality::Default))),
        (seq![0x63u8, 0x53u8, 0x66u8], Mode::Create(Format::Snappy(Quality::Default))),
        (seq![0x63u8, 0x66u8, 0x53u8], Mode::Create(Format::Snappy(Quality::Default))),
        (seq![0x63u8, 0x42u8, 0x66u8], Mode::Create(Format::Brotli(Quality::Default))),
        (seq![0x63u8, 0x66u8, 0x42u8], Mode::Create(Format::Brotli(Quality::Default))),
        (seq![0x63u8, 0x66u8], Mode::Create(Format::Tar(Quality::Default))),
        (seq![0x78u8, 0x66u8], Mode::Extract),
    ]
}

/// The mode of the first spelling at or after `from` that stands at the
/// start of `x`, with the length of that spelling.
pub open spec fn first_mode(x: Seq<u8>, from: int) -> Option<(Mode, int)>
    decreases mode_table().len() - from,
{
    if from < 0 || from >= mode_table().len() {
        None
    } else if has_prefix(x, mode_table()[from].0) {
        Some((mode_table()[from].1, mode_table()[from].0.len() as int))
    } else {
        first_mode(x, from + 1)
    }
}

/// What a cord of flags asks for.
///
/// A cord that starts with a spelling of help or version asks for that,
/// whatever follows. Any other cord must be a spelling and nothing more.
pub open spec fn mode_of(x: Seq<u8>) -> Result<Mode, ModeError> {
    match first_mode(x, 0) {
        None => Err(ModeError::NotUnderstood),
        Some((Mode::Help, _)) => Ok(Mode::Help),
        Some((Mode::Version, _)) => Ok(Mode::Version),
        Some((m, n)) => if n == x.len() {
            Ok(m)
        } else {
            Err(ModeError::Trailing)
        },
    }
}

/// Every spelling, given as the whole cord, asks for the mode it stands
/// for.
pub proof fn lemma_spelling_is_understood(i: int)
    requires
        0 <= i < mode_table().len(),
    ensures
        mode_of(mode_table()[i].0) == Ok::<Mode, ModeError>(mode_table()[i].1),
{
    let x = mode_table()[i].0;
    assert(has_prefix(x, x));
    lemma_first_mode_is_lookup(x, 0);
    let (m, n) = first_mode(x, 0)->Some_0;
    let k = choose|k: int|
        0 <= k < mode_table().len() && has_prefix(x, #[trigger] mode_table()[k].0)
            && mode_table()[k].1 == m && mode_table()[k].0.len() == n && forall|j: int|
            0 <= j < k ==> !has_prefix(x, #[trigger] mode_table()[j].0);
    assert(k <= i);
    assert(mode_table()[k].1 == mode_table()[i].1 && (mode_table()[i].1 is Help
        || mode_table()[i].1 is Version || k == i)) by {
        assert(x[0] == mode_table()[k].0[0]);
        if mode_table()[k].0.len() > 1 {
            assert(x[1] == mode_table()[k].0[1]);
        }
        if mode_table()[k].0.len() > 2 {
            assert(x[2] == mode_table()[k].0[2]);
        }
    }
}

/// What `first_mode` finds is the first spelling at or after `from` that
/// stands at the start of the cord, and it finds one wherever there is one.
pub proof fn lemma_first_mode_is_lookup(x: Seq<u8>, from: int)
    requires
        0 <= from <= mode_table().len(),
    ensures
        first_mode(x, from) matches Some((m, n)) ==> exists|k: int|
            from <= k < mode_table().len() && has_prefix(x, #[trigger] mode_table()[k].0)
                && mode_table()[k].1 == m && mode_table()[k].0.len() == n && forall|j: int|
                from <= j < k ==> !has_prefix(x, #[trigger] mode_table()[j].0),
        first_mode(x, from) is None <==> forall|k: int|
            from <= k < mode_table().len() ==> !has_prefix(x, #[trigger] mode_table()[k].0),
    decreases mode_table().len() - from,
{
    if from < mode_table().len() {
        lemma_first_mode_is_lookup(x, from + 1);
        if has_prefix(x, mode_table()[from].0) {
            assert(forall|j: int| from <= j < from ==> !has_prefix(x, #[trigger] mode_table()[j].0));
        } else {
            match first_mode(x, from + 1) {
                Some((m, n)) => {
                    let k = choose|k: int|
                        from + 1 <= k < mode_table().len() && has_prefix(
                            x,
                            #[trigger] mode_table()[k].0,
                        ) && mode_table()[k].1 == m && mode_table()[k].0.len() == n && forall|
                            j: int,
                        |
                            from + 1 <= j < k ==> !has_prefix(x, #[trigger] mode_table()[j].0);
                    assert forall|j: int| from <= j < k implies !has_prefix(
                        x,
                        #[trigger] mode_table()[j].0,
                    ) by {
                        if j > from {
                        }
                    }
                },
                None => {
                    assert forall|k: int| from <= k < mode_table().len() implies !has_prefix(
                        x,
                        #[trigger] mode_table()[k].0,
                    ) by {
                        if k > from {
                        }
                    }
                },
            }
        }
    }
}

/// The spellings as values to run over.
fn spellings() -> (t: Vec<(Vec<u8>, Mode)>)
    ensures
        t@.len() == mode_table().len(),
        forall|i: int|
            0 <= i < t@.len() ==> (#[trigger] t@[i]).0@ == mode_table()[i].0 && t@[i].1
                == mode_table()[i].1,
{
    let gz = Mode::Create(Format::Gzip(Quality::Default));
    let bz = Mode::Create(Format::Bzip2(Quality::Default));
    let xz = Mode::Create(Format::Xz(Quality::Default));
    let lz4 = Mode::Create(Format::Lz4(Quality::Default));
    let zst = Mode::Create(Format::Zstd(Quality::Default));
    let sz = Mode::Create(Format::Snappy(Quality::Default));
    let br = Mode::Create(Format::Brotli(Quality::Default));
    let tar = Mode::Create(Format::Tar(Quality::Default));
    let t = vec![
        (vec![0x68u8], Mode::Help),
        (vec![0x2du8, 0x68u8], Mode::Help),
        (vec![0x2du8, 0x2du8, 0x68u8], Mode::Help),
        (vec![0x2du8, 0x68u8, 0x65u8, 0x6cu8, 0x70u8], Mode::Help),
        (vec![0x2du8, 0x2du8, 0x68u8, 0x65u8, 0x6cu8, 0x70u8], Mode::Help),
        (vec![0x2du8, 0x2du8, 0x48u8, 0x45u8, 0x4cu8, 0x50u8], Mode::Help),
        (vec![0x48u8, 0x45u8, 0x4cu8, 0x50u8], Mode::Help),
        (vec![0x68u8, 0x65u8, 0x6cu8, 0x70u8], Mode::Help),
        (vec![0x48u8], Mode::Help),
        (vec![0x2du8, 0x48u8], Mode::Help),
        (vec![0x2du8, 0x76u8], Mode::Version),
        (vec![0x2du8, 0x2du8, 0x76u8, 0x65u8, 0x72u8, 0x73u8, 0x69u8, 0x6fu8, 0x6eu8], Mode::Version),
        (vec![0x2du8, 0x56u8], Mode::Version),
        (vec![0x2du8, 0x2du8, 0x76u8], Mode::Version),
        (vec![0x2du8, 0x2du8, 0x56u8], Mode::Version),
        (vec![0x2du8, 0x76u8, 0x65u8, 0x72u8, 0x73u8, 0x69u8, 0x6fu8, 0x6eu8], Mode::Version),
        (vec![0x63u8, 0x7au8, 0x66u8], gz),
        (vec![0x63u8, 0x66u8, 0x7au8], gz),
        (vec![0x63u8, 0x6au8, 0x66u8], bz),
        (vec![0x63u8, 0x66u8, 0x6au8], bz),
        (vec![0x63u8, 0x62u8, 0x4au8, 0x66u8], xz),
        (vec![0x63u8, 0x66u8, 0x4au8], xz),
        (vec![0x63u8, 0x66u8, 0x34u8], lz4),
        (vec![0x63u8, 0x34u8, 0x66u8], lz4),
        (vec![0x63u8, 0x44u8, 0x66u8], zst),
        (vec![0x63u8, 0x66u8, 0x44u8], zst),
        (vec![0x63u8, 0x53u8, 0x66u8], sz),
        (vec![0x63u8, 0x66u8, 0x53u8], sz),
        (vec![0x63u8, 0x42u8, 0x66u8], br),
        (vec![0x63u8, 0x66u8, 0x42u8], br),
        (vec![0x63u8, 0x66u8], tar),
        (vec![0x78u8, 0x66u8], Mode::Extract),
    ];
    t
}

/// Whether `pattern` stands at the start of `x`.
fn tag(x: &[u8], pattern: &[u8]) -> (r: bool)
    ensures
        r == has_prefix(x@, pattern@),
{
    if pattern.len() > x.len() {
        return false;
    }
    let mut i: usize = 0;
    while i < pattern.len()
        invariant
            i <= pattern.len() <= x.len(),
            forall|j: int| 0 <= j < i ==> x@[j] == pattern@[j],
        decreases pattern.len() - i,
    {
        if x[i] != pattern[i] {
            return false;
        }
        i += 1;
    }
    true
}

/// Reads the mode at the start of a cord of flags, and tells how many
/// bytes its spelling takes.
pub fn what_do(x: &[u8]) -> (r: Option<(Mode, usize)>)
    ensures
        match r {
            Some((m, n)) => first_mode(x@, 0) == Some((m, n as int)) && n <= x@.len(),
            None => first_mode(x@, 0) is None,
        },
{
    let table = spellings();
    let mut i: usize = 0;
    while i < table.len()
        invariant
            i <= table@.len() == mode_table().len(),
            forall|k: int|
                0 <= k < table@.len() ==> (#[trigger] table@[k]).0@ == mode_table()[k].0
                    && table@[k].1 == mode_table()[k].1,
            first_mode(x@, 0) == first_mode(x@, i as int),
        decreases table.len() - i,
    {
        if tag(x, table[i].0.as_slice()) {
            return Some((table[i].1, table[i].0.len()));
        }
        i += 1;
    }
    None
}

/// Tells what a cord of flags asks for.
pub fn get_mode(x: &[u8]) -> (r: Result<Mode, ModeError>)
    ensures
        r == mode_of(x@),
{
    match what_do(x) {
        None => Err(ModeError::NotUnderstood),
        Some((Mode::Help, _)) => Ok(Mode::Help),
        Some((Mode::Version, _)) => Ok(Mode::Version),
        Some((m, n)) => {
            if n == x.len() {
                Ok(m)
            } else {
                Err(ModeError::Trailing)
            }
        },
    }
}

/// The effort selector that the flags `--fast` and `--slow` ask for; fast
/// goes first where both are given.
pub fn get_comp_level(fast: bool, slow: bool) -> (q: Quality)
    ensures
        fast ==> q == Quality::FastLow,
        !fast && slow ==> q == Quality::SlowHigh,
        !fast && !slow ==> q == Quality::Default,
{
    if fast {
        return Quality::FastLow;
    }
    if slow {
        return Quality::SlowHigh;
    }
    Quality::Default
}

/// Why an item named on the command line cannot be used.
#[derive(Clone, Copy, Debug, PartialEq, Eq, Structural)]
pub enum ItemFault {
    /// It does not exist.
    Missing,
    /// It exists and is neither a file nor a directory.
    Special,
    /// It exists and is not a file.
    NotAFile,
    /// It exists and is not a directory.
    NotADir,
    /// It exists, and would be overwritten.
    Exists,
}

/// The outcome of a check on an item: it must exist, and then fit, or it
/// has the fault `fault`.
pub open spec fn checked(exists: bool, fits: bool, fault: ItemFault) -> Result<(), ItemFault> {
    if !exists {
        Err(ItemFault::Missing)
    } else if fits {
        Ok(())
    } else {
        Err(fault)
    }
}

/// An item to archive must exist and be a file or a directory.
pub fn valid_item(exists: bool, is_file: bool, is_dir: bool) -> (r: Result<(), ItemFault>)
    ensures
        r == checked(exists, is_file || is_dir, ItemFault::Special),
{
    match (exists, is_file || is_dir) {
        (true, true) => Ok(()),
        (false, _) => Err(ItemFault::Missing),
        (true, false) => Err(ItemFault::Special),
    }
}

/// The output of an archive must not exist yet.
pub fn item_exists(exists: bool) -> (r: Result<(), ItemFault>)
    ensures
        r is Ok <==> !exists,
        r is Err ==> r == Err::<(), ItemFault>(ItemFault::Exists),
{
    if exists {
        Err(ItemFault::Exists)
    } else {
        Ok(())
    }
}

/// An archive to read must exist and be a file.
pub fn valid_path(exists: bool, is_file: bool) -> (r: Result<(), ItemFault>)
    ensures
        r == checked(exists, is_file, ItemFault::NotAFile),
{
    match (exists, is_file) {
        (true, true) => Ok(()),
        (false, _) => Err(ItemFault::Missing),
        (true, false) => Err(ItemFault::NotAFile),
    }
}

/// A destination to extract to must exist and be a directory.
pub fn valid_dir(exists: bool, is_dir: bool) -> (r: Result<(), ItemFault>)
    ensures
        r == checked(exists, is_dir, ItemFault::NotADir),
{
    match (exists, is_dir) {
        (true, true) => Ok(()),
        (false, _) => Err(ItemFault::Missing),
        (true, false) => Err(ItemFault::NotADir),
    }
}

/// What state a command line argument is in.
#[derive(Clone, Debug, PartialEq, Eq)]
pub enum ItemState {
    ExistsFile(Vec<u8>),
    ExistsDir(Vec<u8>),
    NotExist(Vec<u8>),
}

impl ItemState {
    /// The state of the item at the path `x`, given what the file system
    /// says of it.
    pub open spec fn state_of(x: Vec<u8>, is_dir: bool, is_file: bool, exists: bool) -> Result<
        ItemState,
        ItemFault,
    > {
        if is_dir {
            Ok(ItemState::ExistsDir(x))
        } else if is_file {
            Ok(ItemState::ExistsFile(x))
        } else if exists {
            Err(ItemFault::Special)
        } else {
            Ok(ItemState::NotExist(x))
        }
    }

    /// Figures out what kind of item this is, from what the file system
    /// says of its path. A directory goes before a file; what exists and is
    /// neither is special and has no state.
    pub fn conversion(x: Vec<u8>, is_dir: bool, is_file: bool, exists: bool) -> (r: Result<
        ItemState,
        ItemFault,
    >)
        ensures
            r == ItemState::state_of(x, is_dir, is_file, exists),
    {
        if is_dir {
            return Ok(ItemState::ExistsDir(x));
        }
        if is_file {
            return Ok(ItemState::ExistsFile(x));
        }
        if exists {
            return Err(ItemFault::Special);
        }
        Ok(ItemState::NotExist(x))
    }

    /// Test if an item exists.
    pub fn does_exist(&self) -> (r: bool)
        ensures
            r == (self is ExistsFile || self is ExistsDir),
    {
        match self {
            ItemState::ExistsFile(_) | ItemState::ExistsDir(_) => true,
            _ => false,
        }
    }
}

/// The unit in which a size is shown.
#[derive(Clone, Copy, Debug, PartialEq, Eq, Structural)]
pub enum Unit {
    B,
    KiB,
    MiB,
    GiB,
    TiB,
}

/// The unit in which a size of `a` bytes is shown, and the number of bytes
/// that make one of it, as a mathematical value: a unit is used up to and
/// including 1024 of it.
pub open spec fn unit_of(a: u64) -> (Unit, u64) {
    if a <= 1024 {
        (Unit::B, 1u64)
    } else if a <= 1048576 {
        (Unit::KiB, 1024u64)
    } else if a <= 1073741824 {
        (Unit::MiB, 1048576u64)
    } else if a <= 1099511627776 {
        (Unit::GiB, 1073741824u64)
    } else {
        (Unit::TiB, 1099511627776u64)
    }
}

/// Picks the unit in which a size is shown, and tells how many bytes make
/// one of it.
pub fn size_unit(a: u64) -> (r: (Unit, u64))
    ensures
        r == unit_of(a),
{
    if a <= 1024 {
        (Unit::B, 1)
    } else if a <= 1048576 {
        (Unit::KiB, 1024)
    } else if a <= 1073741824 {
        (Unit::MiB, 1048576)
    } else if a <= 1099511627776 {
        (Unit::GiB, 1073741824)
    } else {
        (Unit::TiB, 1099511627776)
    }
}

/// Why the first two arguments of the command line cannot be acted on.
#[derive(Clone, Copy, Debug, PartialEq, Eq, Structural)]
pub enum TopFault {
    /// What is to be extracted does not exist.
    NothingToExtract,
    /// What is to be extracted is a directory: the first argument names the
    /// archive, not the destination.
    ExtractsDirectory,
    /// The archive to create is there already, as a file.
    WouldOverwrite,
    /// The archive to create is there already, as a directory.
    IntoDirectory,
    /// What is to be extracted is there, as a file: extraction is not
    /// offered here.
    NotOffered,
    /// Help or version was asked for: there is nothing to act on.
    NoAction,
}

/// What the mode and the state of the first path call for, as a
/// mathematical value: the format of the archive to create, or a fault.
pub open spec fn top_level_of(m: Mode, a: ItemState) -> Result<Format, TopFault> {
    match (m, a) {
        (Mode::Create(f), ItemState::NotExist(_)) => Ok(f),
        (Mode::Create(_), ItemState::ExistsFile(_)) => Err(TopFault::WouldOverwrite),
        (Mode::Create(_), ItemState::ExistsDir(_)) => Err(TopFault::IntoDirectory),
        (Mode::Extract, ItemState::NotExist(_)) => Err(TopFault::NothingToExtract),
        (Mode::Extract, ItemState::ExistsDir(_)) => Err(TopFault::ExtractsDirectory),
        (Mode::Extract, ItemState::ExistsFile(_)) => Err(TopFault::NotOffered),
        (_, _) => Err(TopFault::NoAction),
    }
}

/// Top level argument entry point: decides what the mode and the state of
/// the first path call for.
///
/// An archive is created only where nothing is in its place. Extraction
/// from an existing file is not offered, and help and version call for no
/// action.
pub fn top_level(m: Mode, a: &ItemState) -> (r: Result<Format, TopFault>)
    ensures
        r == top_level_of(m, *a),
{
    match (m, a) {
        (Mode::Create(f), ItemState::NotExist(_)) => Ok(f),
        (Mode::Create(_), ItemState::ExistsFile(_)) => Err(TopFault::WouldOverwrite),
        (Mode::Create(_), ItemState::ExistsDir(_)) => Err(TopFault::IntoDirectory),
        (Mode::Extract, ItemState::NotExist(_)) => Err(TopFault::NothingToExtract),
        (Mode::Extract, ItemState::ExistsDir(_)) => Err(TopFault::ExtractsDirectory),
        (Mode::Extract, ItemState::ExistsFile(_)) => Err(TopFault::NotOffered),
        (_, _) => Err(TopFault::NoAction),
    }
}

/// Describes what the program is doing.
pub enum Operation {
    /// Archive, pattern, and which of group name, user name, group id, user
    /// id, modification time and size to show.
    List(Vec<u8>, Option<Regex>, bool, bool, bool, bool, bool, bool),
    /// Archive, pattern, destination, and whether to keep extended
    /// attributes and permissions.
    Extract(Vec<u8>, Option<Regex>, Option<Vec<u8>>, bool, bool),
    /// The compressor to fill and the items to archive.
    Create(Comp, Vec<Vec<u8>>),
}

impl Operation {
    /// Are we reading or writing?
    pub fn is_read_action(&self) -> (r: bool)
        ensures
            r == (self is List || self is Extract),
    {
        match self {
            Operation::List(..) | Operation::Extract(..) => true,
            _ => false,
        }
    }

    /// Are we writing?
    pub fn is_write_action(&self) -> (r: bool)
        ensures
            r == (self is Create),
    {
        !self.is_read_action()
    }
}

} // verus!
