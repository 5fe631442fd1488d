//! Contracts for the text functions of the standard library that the rest of
//! the crate calls.  What such a function returns is either stated outright
//! or given a name; nothing here is proved.

use std::fmt::Debug;
use vstd::prelude::*;

verus! {

/// The lower-case form of `text`, as `str::to_lowercase` defines it.
pub uninterp spec fn lowercase(text: Seq<char>) -> Seq<char>;

/// The upper-case form of `text`, as `str::to_uppercase` defines it.
pub uninterp spec fn uppercase(text: Seq<char>) -> Seq<char>;

/// `text` without its leading and trailing white space, as `str::trim`
/// defines it.
pub uninterp spec fn trimmed(text: Seq<char>) -> Seq<char>;

/// `text` without its trailing white space, as `str::trim_end` defines it.
pub uninterp spec fn trimmed_end(text: Seq<char>) -> Seq<char>;

/// The number that `text` denotes for `str::parse::<u8>`, if it denotes one.
pub uninterp spec fn parsed_u8(text: Seq<char>) -> Option<u8>;

/// The number that `text` denotes for `str::parse::<u32>`, if it denotes one.
pub uninterp spec fn parsed_u32(text: Seq<char>) -> Option<u32>;

/// The number that `text` denotes for `str::parse::<usize>`, if it denotes
/// one.
pub uninterp spec fn parsed_usize(text: Seq<char>) -> Option<usize>;

/// The character for the digit `d`.
pub open spec fn digit(d: nat) -> char {
    if d == 0 {
        '0'
    } else if d == 1 {
        '1'
    } else if d == 2 {
        '2'
    } else if d == 3 {
        '3'
    } else if d == 4 {
        '4'
    } else if d == 5 {
        '5'
    } else if d == 6 {
        '6'
    } else if d == 7 {
        '7'
    } else if d == 8 {
        '8'
    } else {
        '9'
    }
}

/// `n` written in decimal digits, without leading zeros.
pub open spec fn decimal(n: nat) -> Seq<char>
    decreases n,
{
    if n < 10 {
        seq![digit(n)]
    } else {
        decimal(n / 10).push(digit(n % 10))
    }
}

/// `needle` occurs in `hay` as a run of consecutive characters.
pub open spec fn occurs_in(needle: Seq<char>, hay: Seq<char>) -> bool {
    exists|start: int|
        0 <= start && start + needle.len() <= hay.len() && #[trigger] hay.subrange(
            start,
            start + needle.len(),
        ) == needle
}

/// `str::to_lowercase`: the result is the lower-case form of the argument.
pub assume_specification[ str::to_lowercase ](text: &str) -> (lowered: String)
    ensures
        lowered@ == lowercase(text@),
;

/// `str::to_uppercase`: the result is the upper-case form of the argument.
pub assume_specification[ str::to_uppercase ](text: &str) -> (raised: String)
    ensures
        raised@ == uppercase(text@),
;

/// `str::trim`: the result is the argument without the white space around it.
pub assume_specification[ str::trim ](text: &str) -> (inner: &str)
    ensures
        inner@ == trimmed(text@),
;

/// `str::trim_end`: the result is the argument without the white space
/// behind it.
pub assume_specification[ str::trim_end ](text: &str) -> (inner: &str)
    ensures
        inner@ == trimmed_end(text@),
;

/// `str::contains` with a string pattern: whether `needle` occurs in `hay`.
#[verifier::external_body]
pub(crate) fn contains(hay: &str, needle: &str) -> (found: bool)
    ensures
        found == occurs_in(needle@, hay@),
{
    hay.contains(needle)
}

/// `==` on string slices: whether the two hold the same characters.
#[verifier::external_body]
pub(crate) fn same_text(left: &str, right: &str) -> (same: bool)
    ensures
        same == (left@ == right@),
{
    left == right
}

/// `str::parse::<u8>`: the number the text denotes, or nothing where the
/// standard library reports a parse error.
#[verifier::external_body]
pub(crate) fn parse_u8(text: &str) -> (number: Option<u8>)
    ensures
        number == parsed_u8(text@),
{
    text.parse::<u8>().ok()
}

/// `str::parse::<u32>`: the number the text denotes, or nothing where the
/// standard library reports a parse error.
#[verifier::external_body]
pub(crate) fn parse_u32(text: &str) -> (number: Option<u32>)
    ensures
        number == parsed_u32(text@),
{
    text.parse::<u32>().ok()
}

/// `str::parse::<usize>`: the number the text denotes, or nothing where the
/// standard library reports a parse error.
#[verifier::external_body]
pub(crate) fn parse_usize(text: &str) -> (number: Option<usize>)
    ensures
        number == parsed_usize(text@),
{
    text.parse::<usize>().ok()
}

/// `ToString::to_string` on a `u32`: the number in decimal digits.
#[verifier::external_body]
pub(crate) fn u32_text(number: u32) -> (text: String)
    ensures
        text@ == decimal(number as nat),
{
    number.to_string()
}

/// `ToString::to_string` on a `usize`: the number in decimal digits.
#[verifier::external_body]
pub(crate) fn usize_text(number: usize) -> (text: String)
    ensures
        text@ == decimal(number as nat),
{
    number.to_string()
}

/// `format!` with `{:?}`: the text that the value's `Debug` impl writes.
#[verifier::external_body]
pub(crate) fn debug_text<T: Debug + ?Sized>(value: &T) -> String {
    format!("{value:?}")
}

} // verus!
