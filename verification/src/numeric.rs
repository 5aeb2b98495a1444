//! Reading unsigned numbers from decimal and hexadecimal text, and writing
//! them as decimal text.

use vstd::prelude::*;

verus! {

/// Whether `c` is one of `0` to `9`.
pub open spec fn is_digit(c: char) -> bool {
    0x30 <= c as u32 <= 0x39
}

/// The value of a decimal digit; zero for any other character.
pub open spec fn digit_value(c: char) -> nat {
    if is_digit(c) {
        (c as u32 - 0x30) as nat
    } else {
        0
    }
}

/// Whether every character of `s` is a decimal digit.
pub open spec fn all_digits(s: Seq<char>) -> bool {
    forall|i: int| 0 <= i < s.len() ==> is_digit(#[trigger] s[i])
}

/// The number that the digits of `s` spell in base ten.
pub open spec fn digits_value(s: Seq<char>) -> nat
    decreases s.len(),
{
    if s.len() == 0 {
        0
    } else {
        digits_value(s.drop_last()) * 10 + digit_value(s.last())
    }
}

/// The number that `s` spells, if `s` is one or more decimal digits and the
/// number is at most `max`.
pub open spec fn parse_digits(s: Seq<char>, max: nat) -> Option<nat> {
    if s.len() > 0 && all_digits(s) && digits_value(s) <= max {
        Some(digits_value(s))
    } else {
        None
    }
}

/// As `parse_digits`, with one optional leading plus sign.
pub open spec fn parse_unsigned(s: Seq<char>, max: nat) -> Option<nat> {
    if s.len() > 1 && s[0] == '+' {
        parse_digits(s.skip(1), max)
    } else {
        parse_digits(s, max)
    }
}

/// Whether `c` is a hexadecimal digit of either case.
pub open spec fn is_hex_digit(c: char) -> bool {
    let n = c as u32;
    ||| 0x30 <= n <= 0x39
    ||| 0x41 <= n <= 0x46
    ||| 0x61 <= n <= 0x66
}

/// The value of a hexadecimal digit; zero for any other character.
pub open spec fn hex_digit_value(c: char) -> nat {
    let n = c as u32;
    if 0x30 <= n <= 0x39 {
        (n - 0x30) as nat
    } else if 0x41 <= n <= 0x46 {
        (n - 0x41 + 10) as nat
    } else if 0x61 <= n <= 0x66 {
        (n - 0x61 + 10) as nat
    } else {
        0
    }
}

/// Whether every character of `s` is a hexadecimal digit.
pub open spec fn all_hex(s: Seq<char>) -> bool {
    forall|i: int| 0 <= i < s.len() ==> is_hex_digit(#[trigger] s[i])
}

/// The number that the digits of `s` spell in base sixteen.
pub open spec fn hex_value(s: Seq<char>) -> nat
    decreases s.len(),
{
    if s.len() == 0 {
        0
    } else {
        hex_value(s.drop_last()) * 16 + hex_digit_value(s.last())
    }
}

/// The number that `s` spells, if `s` is one or more hexadecimal digits and
/// the number is at most `max`.
pub open spec fn parse_hex(s: Seq<char>, max: nat) -> Option<nat> {
    if s.len() > 0 && all_hex(s) && hex_value(s) <= max {
        Some(hex_value(s))
    } else {
        None
    }
}

/// A longer run of digits spells no smaller a number than its prefix.
pub proof fn lemma_digits_value_prefix(s: Seq<char>, k: int)
    requires
        0 <= k <= s.len(),
    ensures
        digits_value(s.take(k)) <= digits_value(s),
    decreases s.len() - k,
{
    if k == s.len() {
        assert(s.take(k) == s);
    } else {
        lemma_digits_value_prefix(s.drop_last(), k);
        assert(s.drop_last().take(k) == s.take(k));
    }
}

/// A longer run of hexadecimal digits spells no smaller a number than its
/// prefix.
pub proof fn lemma_hex_value_prefix(s: Seq<char>, k: int)
    requires
        0 <= k <= s.len(),
    ensures
        hex_value(s.take(k)) <= hex_value(s),
    decreases s.len() - k,
{
    if k == s.len() {
        assert(s.take(k) == s);
    } else {
        lemma_hex_value_prefix(s.drop_last(), k);
        assert(s.drop_last().take(k) == s.take(k));
    }
}

/// Reads `s[from..to]` as one or more decimal digits spelling at most `max`.
pub fn parse_digits_in(s: &Vec<char>, from: usize, to: usize, max: u64) -> (r: Option<u64>)
    requires
        from <= to <= s.len(),
    ensures
        match r {
            Some(v) => parse_digits(s@.subrange(from as int, to as int), max as nat) == Some(
                v as nat,
            ),
            None => parse_digits(s@.subrange(from as int, to as int), max as nat) is None,
        },
{
    let ghost t = s@.subrange(from as int, to as int);
    if from == to {
        return None;
    }
    let mut acc: u64 = 0;
    let mut i: usize = from;
    while i < to
        invariant
            from <= i <= to <= s.len(),
            t == s@.subrange(from as int, to as int),
            acc == digits_value(t.take(i - from)),
            acc <= max,
            all_digits(t.take(i - from)),
        decreases to - i,
    {
        let c = s[i];
        let n: u32 = c as u32;
        proof {
            assert(t.take(i - from + 1).drop_last() == t.take(i - from));
            assert(t.take(i - from + 1).last() == c);
            lemma_digits_value_prefix(t, i - from + 1);
        }
        if n < 0x30 || n > 0x39 {
            assert(!is_digit(t[i - from]));
            return None;
        }
        let d: u64 = (n - 0x30) as u64;
        let next: u128 = acc as u128 * 10 + d as u128;
        if next > max as u128 {
            return None;
        }
        acc = next as u64;
        i += 1;
    }
    assert(t.take(to - from) == t);
    Some(acc)
}

/// Reads `s` as an unsigned decimal number of at most `max`, with one
/// optional leading plus sign.
pub fn parse_unsigned_chars(s: &Vec<char>, max: u64) -> (r: Option<u64>)
    ensures
        match r {
            Some(v) => parse_unsigned(s@, max as nat) == Some(v as nat),
            None => parse_unsigned(s@, max as nat) is None,
        },
{
    if s.len() > 1 && s[0] == '+' {
        assert(s@.subrange(1, s@.len() as int) == s@.skip(1));
        parse_digits_in(s, 1, s.len(), max)
    } else {
        assert(s@.subrange(0, s@.len() as int) == s@);
        parse_digits_in(s, 0, s.len(), max)
    }
}

/// The value of `c` as a hexadecimal digit, if it is one.
pub fn hex_digit_of(c: char) -> (r: Option<u8>)
    ensures
        match r {
            Some(v) => is_hex_digit(c) && v == hex_digit_value(c) && v < 16,
            None => !is_hex_digit(c),
        },
{
    let n: u32 = c as u32;
    if 0x30 <= n && n <= 0x39 {
        Some((n - 0x30) as u8)
    } else if 0x41 <= n && n <= 0x46 {
        Some((n - 0x41 + 10) as u8)
    } else if 0x61 <= n && n <= 0x66 {
        Some((n - 0x61 + 10) as u8)
    } else {
        None
    }
}

/// Reads `s[from..to]` as one or more hexadecimal digits spelling at most
/// `max`.
pub fn parse_hex_in(s: &Vec<char>, from: usize, to: usize, max: u64) -> (r: Option<u64>)
    requires
        from <= to <= s.len(),
    ensures
        match r {
            Some(v) => parse_hex(s@.subrange(from as int, to as int), max as nat) == Some(v as nat),
            None => parse_hex(s@.subrange(from as int, to as int), max as nat) is None,
        },
{
    let ghost t = s@.subrange(from as int, to as int);
    if from == to {
        return None;
    }
    let mut acc: u64 = 0;
    let mut i: usize = from;
    while i < to
        invariant
            from <= i <= to <= s.len(),
            t == s@.subrange(from as int, to as int),
            acc == hex_value(t.take(i - from)),
            acc <= max,
            all_hex(t.take(i - from)),
        decreases to - i,
    {
        let c = s[i];
        proof {
            assert(t.take(i - from + 1).drop_last() == t.take(i - from));
            assert(t.take(i - from + 1).last() == c);
            lemma_hex_value_prefix(t, i - from + 1);
        }
        match hex_digit_of(c) {
            None => {
                assert(!is_hex_digit(t[i - from]));
                return None;
            },
            Some(d) => {
                let next: u128 = acc as u128 * 16 + d as u128;
                if next > max as u128 {
                    return None;
                }
                acc = next as u64;
            },
        }
        i += 1;
    }
    assert(t.take(to - from) == t);
    Some(acc)
}

/// The character for the decimal digit `d`.
pub open spec fn digit_char(d: nat) -> char {
    (0x30 + d) as char
}

/// `n` written in base ten, without leading zeros.
pub open spec fn decimal(n: nat) -> Seq<char>
    decreases n,
{
    if n < 10 {
        seq![digit_char(n)]
    } else {
        decimal(n / 10).push(digit_char(n % 10))
    }
}

/// The character for the decimal digit `d`.
pub fn digit_char_of(d: u8) -> (c: char)
    requires
        d < 10,
    ensures
        c == digit_char(d as nat),
{
    (0x30 + d) as char
}

/// `n` written in base ten.
pub fn decimal_chars(n: u64) -> (v: Vec<char>)
    ensures
        v@ == decimal(n as nat),
    decreases n,
{
    if n < 10 {
        let mut v: Vec<char> = Vec::new();
        v.push(digit_char_of(n as u8));
        v
    } else {
        let mut v = decimal_chars(n / 10);
        v.push(digit_char_of((n % 10) as u8));
        v
    }
}

} // verus!
