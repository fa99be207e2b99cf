//! What is taken on trust of regular expressions and of UTF-8 text.
//!
//! Matching is left to the `regex` crate. A compiled expression stands for
//! the pattern it was compiled from, and whether it finds a match in a text
//! depends on that pattern and the text alone.

use core::str::Utf8Error;
use regex::{Error, Regex};
use vstd::prelude::*;
use vstd::string::StringSliceAdditionalSpecFns;
use vstd::utf8::valid_utf8;

verus! {

#[verifier::external_type_specification]
#[verifier::external_body]
pub struct ExRegex(Regex);

#[verifier::external_type_specification]
pub struct ExRegexError(Error);

#[verifier::external_type_specification]
#[verifier::external_body]
pub struct ExUtf8Error(Utf8Error);

/// The pattern that an expression stands for in matching: for an expression
/// that `Regex::new` hands out, the text it was compiled from. Nothing else
/// is said of it; in particular it is not what `Regex::as_str` gives for an
/// expression that was built in another way, with flags that change how the
/// text is read.
pub uninterp spec fn pattern_of(re: Regex) -> Seq<char>;

/// Whether the expression with the pattern `pattern` finds a match anywhere
/// in the text whose UTF-8 encoding is `text`.
pub uninterp spec fn regex_matches(pattern: Seq<char>, text: Seq<u8>) -> bool;

/// The error with which a pattern is refused, if it is refused.
pub uninterp spec fn regex_error(pattern: Seq<char>) -> Option<Error>;

/// `Regex::new` compiles a pattern. Whether it refuses, and with what
/// error, depends on the pattern alone, and an expression that it hands out
/// stands for that pattern.
pub assume_specification[ Regex::new ](re: &str) -> (r: Result<Regex, Error>)
    ensures
        match r {
            Ok(x) => regex_error(re@) is None && pattern_of(x) == re@,
            Err(e) => regex_error(re@) == Some(e),
        },
;

/// `Regex::is_match` tells whether there is a match for the expression
/// anywhere in the text.
pub assume_specification[ Regex::is_match ](re: &Regex, haystack: &str) -> (r: bool)
    ensures
        r == regex_matches(pattern_of(*re), haystack.spec_bytes()),
;

/// `core::str::from_utf8` takes bytes for text exactly where they are valid
/// UTF-8, and the text then has these bytes.
pub assume_specification[ core::str::from_utf8 ](v: &[u8]) -> (r: Result<&str, Utf8Error>)
    ensures
        r is Ok <==> valid_utf8(v@),
        r matches Ok(s) ==> s.spec_bytes() == v@,
;

} // verus!
