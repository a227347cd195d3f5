//! Classes of scalar values and changes of case.
//!
//! The ASCII range is decided here; outside it the answers are those of the
//! standard library's Unicode tables, which the contracts name.

use vstd::prelude::*;
use crate::text::{chars_of, string_of};

verus! {

/// Whether a scalar value lies in the ASCII range.
pub open spec fn is_ascii(c: char) -> bool {
    (c as u32) < 128
}

/// The ASCII digits.
pub open spec fn ascii_digit(c: char) -> bool {
    48 <= (c as u32) <= 57
}

/// The ASCII capital letters.
pub open spec fn ascii_upper(c: char) -> bool {
    65 <= (c as u32) <= 90
}

/// The ASCII small letters.
pub open spec fn ascii_lower(c: char) -> bool {
    97 <= (c as u32) <= 122
}

/// The ASCII letters.
pub open spec fn ascii_alpha(c: char) -> bool {
    ascii_upper(c) || ascii_lower(c)
}

/// The ASCII letters and digits.
pub open spec fn ascii_alnum(c: char) -> bool {
    ascii_alpha(c) || ascii_digit(c)
}

/// Whether `c` is an ASCII digit.
pub fn is_ascii_digit(c: char) -> (b: bool)
    ensures
        b == ascii_digit(c),
{
    let n: u32 = c as u32;
    48 <= n && n <= 57
}

/// Whether `c` is an ASCII letter.
pub fn is_ascii_alphabetic(c: char) -> (b: bool)
    ensures
        b == ascii_alpha(c),
{
    let n: u32 = c as u32;
    (65 <= n && n <= 90) || (97 <= n && n <= 122)
}

/// Whether `c` is an ASCII letter or digit.
pub fn is_ascii_alphanumeric(c: char) -> (b: bool)
    ensures
        b == ascii_alnum(c),
{
    is_ascii_alphabetic(c) || is_ascii_digit(c)
}

/// Whether a scalar value outside the ASCII range is alphabetic or numeric
/// in Unicode.
pub uninterp spec fn unicode_alphanumeric(c: char) -> bool;

/// The lower-case form of a text in Unicode.
pub uninterp spec fn unicode_lowercase(s: Seq<char>) -> Seq<char>;

/// The upper-case form of one scalar value in Unicode, which may be several
/// scalar values.
pub uninterp spec fn unicode_uppercase(c: char) -> Seq<char>;

/// `char::is_alphanumeric`: the answer is a function of the scalar value
/// alone, named `unicode_alphanumeric`.
#[verifier::external_body]
fn unicode_is_alphanumeric(c: char) -> (b: bool)
    ensures
        b == unicode_alphanumeric(c),
{
    c.is_alphanumeric()
}

/// `str::to_lowercase`: the result is a function of the text alone, named
/// `unicode_lowercase`.
#[verifier::external_body]
fn unicode_to_lowercase(s: &str) -> (r: String)
    ensures
        r@ == unicode_lowercase(s@),
{
    s.to_lowercase()
}

/// `char::to_uppercase`: the scalar values that it yields are a function of
/// the scalar value alone, named `unicode_uppercase`.
#[verifier::external_body]
fn unicode_to_uppercase(c: char) -> (r: String)
    ensures
        r@ == unicode_uppercase(c),
{
    c.to_uppercase().collect()
}

/// `char::from_u32` gives the scalar value with the given code, and none for
/// a surrogate code or one above `0x10FFFF`.
pub assume_specification[ char::from_u32 ](i: u32) -> (r: Option<char>)
    ensures
        r is Some <==> (i < 0xD800 || 0xE000 <= i <= 0x10FFFF),
        r matches Some(c) ==> c as int == i as int,
;

/// Whether a scalar value is a letter or a digit.
pub open spec fn alphanumeric(c: char) -> bool {
    if is_ascii(c) {
        ascii_alnum(c)
    } else {
        unicode_alphanumeric(c)
    }
}

/// Whether `c` is a letter or a digit.
pub fn is_alphanumeric(c: char) -> (b: bool)
    ensures
        b == alphanumeric(c),
{
    if (c as u32) < 128 {
        is_ascii_alphanumeric(c)
    } else {
        unicode_is_alphanumeric(c)
    }
}

/// Whether every value of `s` lies in the ASCII range.
pub open spec fn all_ascii(s: Seq<char>) -> bool {
    forall|i: int| 0 <= i < s.len() ==> is_ascii(#[trigger] s[i])
}

/// The small letter of an ASCII capital letter; any other value itself.
pub open spec fn lower_char(c: char) -> char {
    if ascii_upper(c) {
        ((c as u32) + 32) as char
    } else {
        c
    }
}

/// The capital letter of an ASCII small letter; any other value itself.
pub open spec fn upper_char(c: char) -> char {
    if ascii_lower(c) {
        ((c as u32) - 32) as char
    } else {
        c
    }
}

/// The lower-case form of `s`.
pub open spec fn lowercase(s: Seq<char>) -> Seq<char> {
    if all_ascii(s) {
        Seq::new(s.len(), |i: int| lower_char(s[i]))
    } else {
        unicode_lowercase(s)
    }
}

/// The upper-case form of `c`.
pub open spec fn uppercase(c: char) -> Seq<char> {
    if is_ascii(c) {
        seq![upper_char(c)]
    } else {
        unicode_uppercase(c)
    }
}

/// Turns an ASCII capital letter into the small one.
pub fn to_ascii_lower(c: char) -> (r: char)
    ensures
        r == lower_char(c),
{
    let n: u32 = c as u32;
    if 65 <= n && n <= 90 {
        match char::from_u32(n + 32) {
            Some(r) => r,
            None => c,
        }
    } else {
        c
    }
}

/// Turns an ASCII small letter into the capital one.
pub fn to_ascii_upper(c: char) -> (r: char)
    ensures
        r == upper_char(c),
{
    let n: u32 = c as u32;
    if 97 <= n && n <= 122 {
        match char::from_u32(n - 32) {
            Some(r) => r,
            None => c,
        }
    } else {
        c
    }
}

/// Whether every value of `v` lies in the ASCII range.
pub fn is_all_ascii(v: &Vec<char>) -> (b: bool)
    ensures
        b == all_ascii(v@),
{
    let mut i: usize = 0;
    while i < v.len()
        invariant
            i <= v.len(),
            forall|j: int| 0 <= j < i ==> is_ascii(#[trigger] v@[j]),
        decreases v.len() - i,
    {
        if (v[i] as u32) >= 128 {
            return false;
        }
        i += 1;
    }
    true
}

/// The lower-case form of a text.
pub fn to_lowercase(v: &Vec<char>) -> (r: Vec<char>)
    ensures
        r@ == lowercase(v@),
{
    if is_all_ascii(v) {
        let mut r: Vec<char> = Vec::new();
        let mut i: usize = 0;
        while i < v.len()
            invariant
                i <= v.len(),
                r@ == Seq::new(i as nat, |j: int| lower_char(v@[j])),
            decreases v.len() - i,
        {
            r.push(to_ascii_lower(v[i]));
            i += 1;
        }
        r
    } else {
        let s = string_of(v);
        let lower = unicode_to_lowercase(s.as_str());
        chars_of(lower.as_str())
    }
}

/// The upper-case form of one scalar value.
pub fn to_uppercase(c: char) -> (r: Vec<char>)
    ensures
        r@ == uppercase(c),
{
    if (c as u32) < 128 {
        let mut r: Vec<char> = Vec::new();
        r.push(to_ascii_upper(c));
        assert(r@ =~= seq![upper_char(c)]);
        r
    } else {
        let upper = unicode_to_uppercase(c);
        chars_of(upper.as_str())
    }
}

} // verus!
