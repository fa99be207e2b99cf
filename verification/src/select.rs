//! Which entries of an archive are extracted.
//!
//! An entry is taken where no pattern is given, or where the last
//! component of its stored path is a name in valid UTF-8 that the pattern
//! matches.

use crate::extract::{
    components, path_parts, placement, root_bytes, slashed, unpack, Component, PathError,
    PathPart, Placement, Resolved,
};
use crate::pattern::{pattern_of, regex_error, regex_matches};
use regex::{Error, Regex};
use vstd::prelude::*;
use vstd::utf8::valid_utf8;

verus! {

/// The last component of a path, where it is an ordinary name.
pub open spec fn file_name_of(path: Seq<u8>) -> Option<Seq<u8>> {
    let parts = path_parts(path);
    if parts.len() == 0 {
        None
    } else {
        match parts.last() {
            PathPart::Normal(name) => Some(name),
            _ => None,
        }
    }
}

/// The final component of a path, if there is one: the name of the file or
/// directory that the path leads to. A path that ends in `..` or names
/// nothing has none.
pub fn file_name(path: &[u8]) -> (r: Option<Vec<u8>>)
    ensures
        match r {
            Some(name) => file_name_of(path@) == Some(name@),
            None => file_name_of(path@) is None,
        },
{
    let mut parts = components(path);
    let ghost all = parts@;
    match parts.pop() {
        Some(Component::Normal(name)) => {
            assert(path_parts(path@).last() == all.last()@);
            Some(name)
        },
        Some(_) => {
            assert(path_parts(path@).last() == all.last()@);
            None
        },
        None => None,
    }
}

/// Whether the entry with the stored path `stored` is taken under an
/// optional pattern.
pub open spec fn selected(regex: Option<Regex>, stored: Seq<u8>) -> bool {
    match regex {
        None => true,
        Some(re) => match file_name_of(stored) {
            None => false,
            Some(name) => valid_utf8(name) && regex_matches(pattern_of(re), name),
        },
    }
}

/// Tells whether an entry is taken under an optional pattern.
pub fn is_selected(stored: &[u8], regex: &Option<Regex>) -> (r: bool)
    ensures
        r == selected(*regex, stored@),
{
    match regex {
        None => true,
        Some(re) => match file_name(stored) {
            None => false,
            Some(name) => match core::str::from_utf8(name.as_slice()) {
                Err(_) => false,
                Ok(text) => re.is_match(text),
            },
        },
    }
}

/// What is to be done for an entry once it is known whether it is taken.
///
/// An entry that is not taken calls for nothing. One that is taken is
/// resolved against the destination: either it gets its place, or its
/// stored path is refused.
pub fn exec_selected(stored: &[u8], taken: bool, to: Option<&[u8]>) -> (r: Result<
    Option<Resolved>,
    PathError,
>)
    ensures
        !taken ==> r == Ok::<Option<Resolved>, PathError>(None),
        taken ==> match r {
            Ok(Some(res)) => placement(root_bytes(to), path_parts(slashed(stored@))) == Ok::<
                Placement,
                PathError,
            >(res@),
            Ok(None) => false,
            Err(e) => placement(root_bytes(to), path_parts(slashed(stored@))) == Err::<
                Placement,
                PathError,
            >(e),
        },
{
    if taken {
        match unpack(to, stored) {
            Ok(res) => Ok(Some(res)),
            Err(e) => Err(e),
        }
    } else {
        Ok(None)
    }
}

/// Extraction logic: what is to be done for the entry with the stored
/// path `stored`, under an optional pattern and an optional destination.
pub fn exec(stored: &[u8], regex: &Option<Regex>, to: Option<&[u8]>) -> (r: Result<
    Option<Resolved>,
    PathError,
>)
    ensures
        !selected(*regex, stored@) ==> r == Ok::<Option<Resolved>, PathError>(None),
        selected(*regex, stored@) ==> match r {
            Ok(Some(res)) => placement(root_bytes(to), path_parts(slashed(stored@))) == Ok::<
                Placement,
                PathError,
            >(res@),
            Ok(None) => false,
            Err(e) => placement(root_bytes(to), path_parts(slashed(stored@))) == Err::<
                Placement,
                PathError,
            >(e),
        },
{
    let taken = is_selected(stored, regex);
    exec_selected(stored, taken, to)
}

/// Why a pattern is refused.
#[derive(Clone, Debug, PartialEq, Eq)]
pub enum RegexFault {
    /// The compiled pattern exceeds the size limit; this is the limit.
    CompiledTooBig(usize),
    /// The pattern is malformed; this is what is wrong with it.
    Syntax(String),
    /// The pattern is refused for a reason that is not told.
    Undocumented,
}

/// The fault of the library that stands for an error of the regex crate.
pub open spec fn fault_of(e: Error) -> RegexFault {
    match e {
        Error::CompiledTooBig(limit) => RegexFault::CompiledTooBig(limit),
        Error::Syntax(text) => RegexFault::Syntax(text),
        _ => RegexFault::Undocumented,
    }
}

/// The outcome of compiling a pattern: nothing to object, or the fault.
pub open spec fn verdict(pattern: Seq<char>) -> Result<(), RegexFault> {
    match regex_error(pattern) {
        None => Ok(()),
        Some(e) => Err(fault_of(e)),
    }
}

/// Names the fault that stands for an error of the regex crate.
pub fn regex_fault(e: Error) -> (r: RegexFault)
    ensures
        r == fault_of(e),
{
    match e {
        Error::CompiledTooBig(limit) => RegexFault::CompiledTooBig(limit),
        Error::Syntax(text) => RegexFault::Syntax(text),
        _ => RegexFault::Undocumented,
    }
}

/// Compiles a pattern, and names its fault where it is refused.
pub fn compile(x: &str) -> (r: Result<Regex, RegexFault>)
    ensures
        match r {
            Ok(re) => verdict(x@) is Ok && pattern_of(re) == x@,
            Err(f) => verdict(x@) == Err::<(), RegexFault>(f),
        },
{
    match Regex::new(x) {
        Ok(re) => Ok(re),
        Err(e) => Err(regex_fault(e)),
    }
}

/// Tells whether a pattern can be used, and names its fault where not.
pub fn valid_regex(x: &str) -> (r: Result<(), RegexFault>)
    ensures
        r == verdict(x@),
{
    match compile(x) {
        Ok(_) => Ok(()),
        Err(e) => Err(e),
    }
}

} // verus!
