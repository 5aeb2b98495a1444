//! Upper and lower case.
//!
//! Text made of ASCII characters is mapped here, character by character.
//! Other text is handed to the standard library, whose Unicode mapping is
//! known to this crate only by name.

use vstd::prelude::*;
use crate::text::{chars_of, push_char, string_of};

verus! {

/// Whether `c` is an ASCII character.
pub open spec fn is_ascii_char(c: char) -> bool {
    (c as u32) < 128
}

/// Whether every character of `s` is an ASCII character.
pub open spec fn is_ascii_text(s: Seq<char>) -> bool {
    forall|i: int| 0 <= i < s.len() ==> is_ascii_char(#[trigger] s[i])
}

/// The lower-case form of an ASCII letter; any other character unchanged.
pub open spec fn ascii_lower(c: char) -> char {
    if 0x41 <= c as u32 <= 0x5A {
        (c as u32 + 32) as char
    } else {
        c
    }
}

/// The upper-case form of an ASCII letter; any other character unchanged.
pub open spec fn ascii_upper(c: char) -> char {
    if 0x61 <= c as u32 <= 0x7A {
        (c as u32 - 32) as char
    } else {
        c
    }
}

/// What `str::to_lowercase` returns for the text `s`.
pub uninterp spec fn unicode_lowercase(s: Seq<char>) -> Seq<char>;

/// What `str::to_uppercase` returns for the text `s`.
pub uninterp spec fn unicode_uppercase(s: Seq<char>) -> Seq<char>;

/// The lower-case form of `s`.
pub open spec fn lowercase(s: Seq<char>) -> Seq<char> {
    if is_ascii_text(s) {
        Seq::new(s.len(), |i: int| ascii_lower(s[i]))
    } else {
        unicode_lowercase(s)
    }
}

/// The upper-case form of `s`.
pub open spec fn uppercase(s: Seq<char>) -> Seq<char> {
    if is_ascii_text(s) {
        Seq::new(s.len(), |i: int| ascii_upper(s[i]))
    } else {
        unicode_uppercase(s)
    }
}

/// Trusted: the result is what `str::to_lowercase` returns for `s`, a
/// function of the text alone.
#[verifier::external_body]
fn std_to_lowercase(s: &str) -> (r: String)
    ensures
        r@ == unicode_lowercase(s@),
{
    s.to_lowercase()
}

/// Trusted: the result is what `str::to_uppercase` returns for `s`, a
/// function of the text alone.
#[verifier::external_body]
fn std_to_uppercase(s: &str) -> (r: String)
    ensures
        r@ == unicode_uppercase(s@),
{
    s.to_uppercase()
}

/// Whether every character of `v` is an ASCII character.
pub fn is_ascii_chars(v: &Vec<char>) -> (r: bool)
    ensures
        r == is_ascii_text(v@),
{
    let mut i: usize = 0;
    while i < v.len()
        invariant
            i <= v.len(),
            forall|k: int| 0 <= k < i ==> is_ascii_char(#[trigger] v@[k]),
        decreases v.len() - i,
    {
        if v[i] as u32 >= 128 {
            return false;
        }
        i += 1;
    }
    true
}

/// The lower-case form of an ASCII letter; any other character unchanged.
pub fn ascii_lower_char(c: char) -> (r: char)
    ensures
        r == ascii_lower(c),
{
    let n: u32 = c as u32;
    if 0x41 <= n && n <= 0x5A {
        ((n + 32) as u8) as char
    } else {
        c
    }
}

/// The upper-case form of an ASCII letter; any other character unchanged.
pub fn ascii_upper_char(c: char) -> (r: char)
    ensures
        r == ascii_upper(c),
{
    let n: u32 = c as u32;
    if 0x61 <= n && n <= 0x7A {
        ((n - 32) as u8) as char
    } else {
        c
    }
}

/// The lower-case form of the text held by `v`.
pub fn lowercase_of_chars(v: &Vec<char>) -> (r: String)
    ensures
        r@ == lowercase(v@),
{
    if !is_ascii_chars(v) {
        let s = string_of(v);
        return std_to_lowercase(s.as_str());
    }
    let mut r = String::new();
    let mut i: usize = 0;
    while i < v.len()
        invariant
            i <= v.len(),
            r@.len() == i,
            forall|k: int| 0 <= k < i ==> r@[k] == ascii_lower(v@[k]),
        decreases v.len() - i,
    {
        push_char(&mut r, ascii_lower_char(v[i]));
        i += 1;
    }
    assert(r@ =~= lowercase(v@));
    r
}

/// The upper-case form of the text held by `v`.
pub fn uppercase_of_chars(v: &Vec<char>) -> (r: String)
    ensures
        r@ == uppercase(v@),
{
    if !is_ascii_chars(v) {
        let s = string_of(v);
        return std_to_uppercase(s.as_str());
    }
    let mut r = String::new();
    let mut i: usize = 0;
    while i < v.len()
        invariant
            i <= v.len(),
            r@.len() == i,
            forall|k: int| 0 <= k < i ==> r@[k] == ascii_upper(v@[k]),
        decreases v.len() - i,
    {
        push_char(&mut r, ascii_upper_char(v[i]));
        i += 1;
    }
    assert(r@ =~= uppercase(v@));
    r
}

/// The lower-case form of `s`.
pub fn to_lowercase(s: &str) -> (r: String)
    ensures
        r@ == lowercase(s@),
{
    let v = chars_of(s);
    lowercase_of_chars(&v)
}

/// The upper-case form of `s`.
pub fn to_uppercase(s: &str) -> (r: String)
    ensures
        r@ == uppercase(s@),
{
    let v = chars_of(s);
    uppercase_of_chars(&v)
}

/// Whether `a` and `b` are equal once ASCII letters are put in lower case.
pub open spec fn eq_ignore_case(a: Seq<char>, b: Seq<char>) -> bool {
    &&& a.len() == b.len()
    &&& forall|i: int| 0 <= i < a.len() ==> ascii_lower(#[trigger] a[i]) == ascii_lower(b[i])
}

/// Whether `a` and `b` are equal once ASCII letters are put in lower case.
pub fn chars_eq_ignore_case(a: &Vec<char>, b: &Vec<char>) -> (r: bool)
    ensures
        r == eq_ignore_case(a@, b@),
{
    if a.len() != b.len() {
        return false;
    }
    let mut i: usize = 0;
    while i < a.len()
        invariant
            a.len() == b.len(),
            i <= a.len(),
            forall|k: int| 0 <= k < i ==> ascii_lower(#[trigger] a@[k]) == ascii_lower(b@[k]),
        decreases a.len() - i,
    {
        if ascii_lower_char(a[i]) != ascii_lower_char(b[i]) {
            return false;
        }
        i += 1;
    }
    true
}

} // verus!
