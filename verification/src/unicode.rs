//! Character classes and case, as the standard library defines them. ASCII is spelled out;
//! beyond it the classes are named.

use vstd::prelude::*;

verus! {

pub open spec fn ascii(c: char) -> bool {
    (c as int) < 128
}

pub open spec fn ascii_digit(c: char) -> bool {
    '0' <= c <= '9'
}

pub open spec fn ascii_lower(c: char) -> bool {
    'a' <= c <= 'z'
}

pub open spec fn ascii_upper(c: char) -> bool {
    'A' <= c <= 'Z'
}

/// An ASCII letter in lowercase; other characters as they are.
pub open spec fn ascii_lowered(c: char) -> char {
    if ascii_upper(c) {
        (c as int + 32) as char
    } else {
        c
    }
}

/// An ASCII letter in uppercase; other characters as they are.
pub open spec fn ascii_raised(c: char) -> char {
    if ascii_lower(c) {
        (c as int - 32) as char
    } else {
        c
    }
}

pub open spec fn all_ascii(s: Seq<char>) -> bool {
    forall|i: int| 0 <= i < s.len() ==> ascii(#[trigger] s[i])
}

/// `char::is_alphanumeric` beyond ASCII.
pub uninterp spec fn alphanumeric_beyond(c: char) -> bool;

/// `char::is_lowercase` beyond ASCII.
pub uninterp spec fn lowercase_beyond(c: char) -> bool;

/// `char::is_uppercase` beyond ASCII.
pub uninterp spec fn uppercase_beyond(c: char) -> bool;

/// `str::to_uppercase` of a text that is not all ASCII.
pub uninterp spec fn uppercase_of(s: Seq<char>) -> Seq<char>;

/// `str::to_lowercase` of a text that is not all ASCII.
pub uninterp spec fn lowercase_of(s: Seq<char>) -> Seq<char>;

/// A letter or a digit.
pub open spec fn is_alnum(c: char) -> bool {
    if ascii(c) {
        ascii_digit(c) || ascii_lower(c) || ascii_upper(c)
    } else {
        alphanumeric_beyond(c)
    }
}

pub open spec fn is_lower(c: char) -> bool {
    if ascii(c) {
        ascii_lower(c)
    } else {
        lowercase_beyond(c)
    }
}

pub open spec fn is_upper(c: char) -> bool {
    if ascii(c) {
        ascii_upper(c)
    } else {
        uppercase_beyond(c)
    }
}

/// The text in uppercase.
pub open spec fn upper(s: Seq<char>) -> Seq<char> {
    if all_ascii(s) {
        s.map_values(|c: char| ascii_raised(c))
    } else {
        uppercase_of(s)
    }
}

/// The text in lowercase.
pub open spec fn lower(s: Seq<char>) -> Seq<char> {
    if all_ascii(s) {
        s.map_values(|c: char| ascii_lowered(c))
    } else {
        lowercase_of(s)
    }
}

/// `char::is_alphanumeric`: ASCII letters and digits, and a class beyond ASCII that depends on
/// the character alone.
pub assume_specification[ char::is_alphanumeric ](c: char) -> (r: bool)
    ensures
        ascii(c) ==> r == (ascii_digit(c) || ascii_lower(c) || ascii_upper(c)),
        !ascii(c) ==> r == alphanumeric_beyond(c),
;

/// `char::is_lowercase`: `a` to `z`, and a class beyond ASCII that depends on the character
/// alone.
pub assume_specification[ char::is_lowercase ](c: char) -> (r: bool)
    ensures
        ascii(c) ==> r == ascii_lower(c),
        !ascii(c) ==> r == lowercase_beyond(c),
;

/// `char::is_uppercase`: `A` to `Z`, and a class beyond ASCII that depends on the character
/// alone.
pub assume_specification[ char::is_uppercase ](c: char) -> (r: bool)
    ensures
        ascii(c) ==> r == ascii_upper(c),
        !ascii(c) ==> r == uppercase_beyond(c),
;

/// `str::to_uppercase`: of an ASCII text, each letter raised; of another text a result that
/// depends on the text alone.
pub assume_specification[ str::to_uppercase ](s: &str) -> (r: String)
    ensures
        all_ascii(s@) ==> r@ == s@.map_values(|c: char| ascii_raised(c)),
        !all_ascii(s@) ==> r@ == uppercase_of(s@),
;

/// `str::to_lowercase`: of an ASCII text, each letter lowered; of another text a result that
/// depends on the text alone.
pub assume_specification[ str::to_lowercase ](s: &str) -> (r: String)
    ensures
        all_ascii(s@) ==> r@ == s@.map_values(|c: char| ascii_lowered(c)),
        !all_ascii(s@) ==> r@ == lowercase_of(s@),
;

/// Whether `c` is a letter or a digit.
pub fn alnum(c: char) -> (r: bool)
    ensures
        r == is_alnum(c),
{
    c.is_alphanumeric()
}

/// One character in uppercase (possibly several characters).
pub fn upper_char(c: char) -> (r: String)
    ensures
        r@ == upper(seq![c]),
{
    let mut s = String::new();
    s.push(c);
    assert(s@ =~= seq![c]);
    s.as_str().to_uppercase()
}

/// One character in lowercase (possibly several characters).
pub fn lower_char(c: char) -> (r: String)
    ensures
        r@ == lower(seq![c]),
{
    let mut s = String::new();
    s.push(c);
    assert(s@ =~= seq![c]);
    s.as_str().to_lowercase()
}

/// An ASCII letter in lowercase; other characters as they are.
pub fn to_ascii_lower(c: char) -> (r: char)
    ensures
        r == ascii_lowered(c),
{
    if 'A' <= c && c <= 'Z' {
        let u: u8 = (c as u8) + 32;
        u as char
    } else {
        c
    }
}

} // verus!
