//! Small text helpers shared by the rest of the crate.

use vstd::prelude::*;
use vstd::string::StringExecFns;

verus! {

/// True when every character of `s` is an ASCII character.
pub open spec fn is_ascii_text(s: Seq<char>) -> bool {
    forall|i: int| 0 <= i < s.len() ==> (#[trigger] s[i]) <= '\x7f'
}

/// An ASCII character in lowercase: the letters `A` to `Z` become `a` to
/// `z`, and every other character stays as it is.
pub open spec fn ascii_lower(c: char) -> char {
    if 'A' <= c && c <= 'Z' {
        ((c as u8 + 32) as u8) as char
    } else {
        c
    }
}

/// A text with each of its characters in ASCII lowercase.
pub open spec fn ascii_lowercased(s: Seq<char>) -> Seq<char> {
    s.map_values(|c: char| ascii_lower(c))
}

/// The Unicode lowercase equivalent of a text, as `str::to_lowercase` gives it.
pub uninterp spec fn lowercased(s: Seq<char>) -> Seq<char>;

/// The text against which names are matched without regard to case: an
/// ASCII text with its letters in lowercase, any other text in its Unicode
/// lowercase equivalent.
pub open spec fn case_folded(s: Seq<char>) -> Seq<char> {
    if is_ascii_text(s) {
        ascii_lowercased(s)
    } else {
        lowercased(s)
    }
}

/// Calls `str::to_lowercase`. Not proved: that the result is the Unicode
/// lowercase equivalent of `s`, which `lowercased` names, and that for a
/// text of ASCII characters alone this is the text with `A` to `Z` turned
/// into `a` to `z` and nothing else changed. The latter is how Unicode maps
/// the ASCII characters to lowercase.
#[verifier::external_body]
pub(crate) fn to_lowercase(s: &str) -> (r: String)
    ensures
        r@ == lowercased(s@),
        is_ascii_text(s@) ==> r@ == ascii_lowercased(s@),
{
    s.to_lowercase()
}

/// Lowercases `s` for case-insensitive matching.
pub fn fold_case(s: &str) -> (r: String)
    ensures
        r@ == case_folded(s@),
{
    to_lowercase(s)
}

/// The decimal digit `d`, for `d` in 0..=9.
pub open spec fn digit_text(d: int) -> Seq<char> {
    if d == 0 {
        "0"@
    } else if d == 1 {
        "1"@
    } else if d == 2 {
        "2"@
    } else if d == 3 {
        "3"@
    } else if d == 4 {
        "4"@
    } else if d == 5 {
        "5"@
    } else if d == 6 {
        "6"@
    } else if d == 7 {
        "7"@
    } else if d == 8 {
        "8"@
    } else {
        "9"@
    }
}

/// A number written in decimal, without leading zeros.
pub open spec fn decimal_text(n: nat) -> Seq<char>
    decreases n,
{
    if n < 10 {
        digit_text(n as int)
    } else {
        decimal_text(n / 10) + digit_text((n % 10) as int)
    }
}

/// The decimal digit `d`.
pub(crate) fn digit_str(d: u64) -> (r: &'static str)
    requires
        d < 10,
    ensures
        r@ == digit_text(d as int),
{
    if d == 0 {
        "0"
    } else if d == 1 {
        "1"
    } else if d == 2 {
        "2"
    } else if d == 3 {
        "3"
    } else if d == 4 {
        "4"
    } else if d == 5 {
        "5"
    } else if d == 6 {
        "6"
    } else if d == 7 {
        "7"
    } else if d == 8 {
        "8"
    } else {
        "9"
    }
}

/// Writes `n` in decimal.
pub fn decimal_string(n: u64) -> (r: String)
    ensures
        r@ == decimal_text(n as nat),
    decreases n,
{
    if n < 10 {
        String::from_str(digit_str(n))
    } else {
        decimal_string(n / 10).concat(digit_str(n % 10))
    }
}

/// Whether two texts hold the same characters.
pub fn str_eq(a: &str, b: &str) -> (r: bool)
    ensures
        r == (a@ == b@),
{
    let x = a.to_owned();
    let y = b.to_owned();
    x == y
}

} // verus!
