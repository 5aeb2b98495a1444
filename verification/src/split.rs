//! Splitting text into separator-delimited parts, lines and
//! whitespace-delimited fields, and trimming whitespace.

use vstd::prelude::*;
use crate::text::{position, position_from, position_in, lemma_position_from};

verus! {

/// Whether `c` is white space (the Unicode `White_Space` characters).
pub open spec fn is_space(c: char) -> bool {
    let n = c as u32;
    ||| 0x09 <= n <= 0x0D
    ||| n == 0x20
    ||| n == 0x85
    ||| n == 0xA0
    ||| n == 0x1680
    ||| 0x2000 <= n <= 0x200A
    ||| n == 0x2028
    ||| n == 0x2029
    ||| n == 0x202F
    ||| n == 0x205F
    ||| n == 0x3000
}

/// Whether `c` is white space.
pub fn is_space_char(c: char) -> (r: bool)
    ensures
        r == is_space(c),
{
    let n: u32 = c as u32;
    (0x09 <= n && n <= 0x0D) || n == 0x20 || n == 0x85 || n == 0xA0 || n == 0x1680 || (0x2000 <= n
        && n <= 0x200A) || n == 0x2028 || n == 0x2029 || n == 0x202F || n == 0x205F || n == 0x3000
}

/// The texts held by a sequence of character vectors.
pub open spec fn views(v: Seq<Vec<char>>) -> Seq<Seq<char>> {
    Seq::new(v.len(), |i: int| v[i]@)
}

/// Pushing a vector appends its text to the views.
pub proof fn lemma_views_push(v: Seq<Vec<char>>, x: Vec<char>)
    ensures
        views(v.push(x)) == views(v).push(x@),
{
    assert(views(v.push(x)) =~= views(v).push(x@));
}

/// A copy of the characters `v[from..to]`.
pub fn chars_range(v: &Vec<char>, from: usize, to: usize) -> (r: Vec<char>)
    requires
        from <= to <= v.len(),
    ensures
        r@ == v@.subrange(from as int, to as int),
{
    let mut r: Vec<char> = Vec::new();
    let mut i: usize = from;
    while i < to
        invariant
            from <= i <= to <= v.len(),
            r@ == v@.subrange(from as int, i as int),
        decreases to - i,
    {
        r.push(v[i]);
        i += 1;
    }
    r
}

/// The parts of `s` between occurrences of `sep`; always at least one part.
pub open spec fn split_on(s: Seq<char>, sep: char) -> Seq<Seq<char>>
    decreases s.len(),
{
    match position(s, sep) {
        Some(i) if 0 <= i < s.len() => seq![s.take(i)] + split_on(s.skip(i + 1), sep),
        _ => seq![s],
    }
}

/// Searching a suffix of `s` is searching `s` from the suffix's start.
pub proof fn lemma_position_skip(s: Seq<char>, c: char, start: int, from: int)
    requires
        0 <= start <= from <= s.len(),
    ensures
        position_from(s.skip(start), c, from - start) == match position_from(s, c, from) {
            Some(i) => Some(i - start),
            None => None,
        },
    decreases s.len() - from,
{
    if from < s.len() {
        assert(s.skip(start)[from - start] == s[from]);
        if s[from] != c {
            lemma_position_skip(s, c, start, from + 1);
        }
    }
}

/// Splits `s` at every occurrence of `sep`.
pub fn split_chars(s: &Vec<char>, sep: char) -> (out: Vec<Vec<char>>)
    ensures
        views(out@) == split_on(s@, sep),
        out.len() >= 1,
{
    let mut out: Vec<Vec<char>> = Vec::new();
    let mut start: usize = 0;
    proof {
        assert(s@.skip(0) == s@);
        assert(views(out@) + split_on(s@, sep) == split_on(s@, sep));
    }
    loop
        invariant_except_break
            start <= s.len(),
            split_on(s@, sep) == views(out@) + split_on(s@.skip(start as int), sep),
        ensures
            views(out@) == split_on(s@, sep),
            out.len() >= 1,
        decreases s.len() - start,
    {
        proof {
            lemma_position_skip(s@, sep, start as int, start as int);
            lemma_position_from(s@, sep, start as int);
        }
        let ghost before = out@;
        match position_in(s, sep, start) {
            None => {
                let part = chars_range(s, start, s.len());
                out.push(part);
                proof {
                    lemma_views_push(before, part);
                    assert(s@.subrange(start as int, s@.len() as int) == s@.skip(start as int));
                    assert(views(before) + seq![part@] == views(before).push(part@));
                }
                break ;
            },
            Some(i) => {
                let part = chars_range(s, start, i);
                out.push(part);
                proof {
                    let rest = s@.skip(start as int);
                    lemma_views_push(before, part);
                    assert(rest.take(i - start) == s@.subrange(start as int, i as int));
                    assert(rest.skip(i - start + 1) == s@.skip(i + 1));
                    assert(views(before) + (seq![part@] + split_on(s@.skip(i + 1), sep))
                        == views(before).push(part@) + split_on(s@.skip(i + 1), sep));
                }
                start = i + 1;
            },
        }
    }
    out
}

/// `s` without one trailing carriage return.
pub open spec fn strip_cr(s: Seq<char>) -> Seq<char> {
    if s.len() > 0 && s.last() == '\r' {
        s.drop_last()
    } else {
        s
    }
}

/// The lines of `s`: the parts between line feeds, without a trailing
/// carriage return each; a final line feed ends the last line and opens no
/// new one.
pub open spec fn lines_of(s: Seq<char>) -> Seq<Seq<char>> {
    let parts = split_on(s, '\n');
    let kept = if parts.len() > 0 && parts.last().len() == 0 {
        parts.drop_last()
    } else {
        parts
    };
    Seq::new(kept.len(), |i: int| strip_cr(kept[i]))
}

/// Splits `s` into lines.
pub fn split_lines(s: &Vec<char>) -> (out: Vec<Vec<char>>)
    ensures
        views(out@) == lines_of(s@),
{
    let mut parts = split_chars(s, '\n');
    let ghost all = views(parts@);
    let n = parts.len();
    if parts[n - 1].len() == 0 {
        parts.pop();
    }
    let ghost kept = views(parts@);
    assert(kept == if all.last().len() == 0 {
        all.drop_last()
    } else {
        all
    }) by {
        assert(all.last() == all[n - 1]);
        if all.last().len() == 0 {
            assert(kept =~= all.drop_last());
        }
    }
    let mut out: Vec<Vec<char>> = Vec::new();
    let mut i: usize = 0;
    while i < parts.len()
        invariant
            i <= parts.len(),
            kept == views(parts@),
            out.len() == i,
            forall|k: int| 0 <= k < i ==> out@[k]@ == strip_cr(kept[k]),
        decreases parts.len() - i,
    {
        let line = &parts[i];
        let m = line.len();
        let stripped = if m > 0 && line[m - 1] == '\r' {
            let r = chars_range(line, 0, m - 1);
            assert(line@.subrange(0, m - 1) == line@.drop_last());
            r
        } else {
            let r = chars_range(line, 0, m);
            assert(line@.subrange(0, m as int) == line@);
            r
        };
        assert(stripped@ == strip_cr(kept[i as int]));
        out.push(stripped);
        i += 1;
    }
    assert(views(out@) =~= lines_of(s@));
    out
}

/// The first index at or after `i` that holds no white space, or the length.
pub open spec fn skip_spaces(s: Seq<char>, i: int) -> int
    decreases s.len() - i,
{
    if 0 <= i < s.len() && is_space(s[i]) {
        skip_spaces(s, i + 1)
    } else {
        i
    }
}

/// The first index at or after `i` that holds white space, or the length.
pub open spec fn skip_word(s: Seq<char>, i: int) -> int
    decreases s.len() - i,
{
    if 0 <= i < s.len() && !is_space(s[i]) {
        skip_word(s, i + 1)
    } else {
        i
    }
}

/// The maximal runs of characters other than white space in `s` that start
/// at or after `i`, in order.
pub open spec fn fields_from(s: Seq<char>, i: int) -> Seq<Seq<char>>
    decreases s.len() - i,
{
    let a = skip_spaces(s, i);
    let b = skip_word(s, a);
    if 0 <= i <= a < b <= s.len() {
        seq![s.subrange(a, b)] + fields_from(s, b)
    } else {
        seq![]
    }
}

/// The white-space-separated fields of `s`.
pub open spec fn fields(s: Seq<char>) -> Seq<Seq<char>> {
    fields_from(s, 0)
}

/// `skip_spaces` stops within the text, after white space only, at a
/// character that is none.
pub proof fn lemma_skip_spaces(s: Seq<char>, i: int)
    requires
        0 <= i <= s.len(),
    ensures
        i <= skip_spaces(s, i) <= s.len(),
        forall|k: int| i <= k < skip_spaces(s, i) ==> is_space(s[k]),
        skip_spaces(s, i) < s.len() ==> !is_space(s[skip_spaces(s, i)]),
    decreases s.len() - i,
{
    if i < s.len() && is_space(s[i]) {
        lemma_skip_spaces(s, i + 1);
    }
}

/// `skip_word` stops within the text, after characters other than white
/// space only, at white space.
pub proof fn lemma_skip_word(s: Seq<char>, i: int)
    requires
        0 <= i <= s.len(),
    ensures
        i <= skip_word(s, i) <= s.len(),
        forall|k: int| i <= k < skip_word(s, i) ==> !is_space(s[k]),
        skip_word(s, i) < s.len() ==> is_space(s[skip_word(s, i)]),
    decreases s.len() - i,
{
    if i < s.len() && !is_space(s[i]) {
        lemma_skip_word(s, i + 1);
    }
}

/// The first index at or after `i` that holds no white space.
pub fn skip_spaces_in(s: &Vec<char>, i: usize) -> (r: usize)
    requires
        i <= s.len(),
    ensures
        r == skip_spaces(s@, i as int),
        i <= r <= s.len(),
{
    let mut k: usize = i;
    while k < s.len() && is_space_char(s[k])
        invariant
            i <= k <= s.len(),
            skip_spaces(s@, i as int) == skip_spaces(s@, k as int),
        decreases s.len() - k,
    {
        k += 1;
    }
    k
}

/// The first index at or after `i` that holds white space.
pub fn skip_word_in(s: &Vec<char>, i: usize) -> (r: usize)
    requires
        i <= s.len(),
    ensures
        r == skip_word(s@, i as int),
        i <= r <= s.len(),
{
    let mut k: usize = i;
    while k < s.len() && !is_space_char(s[k])
        invariant
            i <= k <= s.len(),
            skip_word(s@, i as int) == skip_word(s@, k as int),
        decreases s.len() - k,
    {
        k += 1;
    }
    k
}

/// Splits `s` into its white-space-separated fields.
pub fn split_fields(s: &Vec<char>) -> (out: Vec<Vec<char>>)
    ensures
        views(out@) == fields(s@),
{
    let mut out: Vec<Vec<char>> = Vec::new();
    let mut i: usize = 0;
    proof {
        assert(views(out@) + fields(s@) == fields(s@));
    }
    loop
        invariant_except_break
            i <= s.len(),
            fields(s@) == views(out@) + fields_from(s@, i as int),
        ensures
            views(out@) == fields(s@),
        decreases s.len() - i,
    {
        let a = skip_spaces_in(s, i);
        if a >= s.len() {
            proof {
                assert(views(out@) + Seq::<Seq<char>>::empty() == views(out@));
            }
            break ;
        }
        let b = skip_word_in(s, a);
        proof {
            lemma_skip_spaces(s@, i as int);
            lemma_skip_word(s@, a + 1);
        }
        let ghost before = out@;
        let part = chars_range(s, a, b);
        out.push(part);
        proof {
            lemma_views_push(before, part);
            assert(views(before) + (seq![part@] + fields_from(s@, b as int)) == views(before).push(
                part@,
            ) + fields_from(s@, b as int));
        }
        i = b;
    }
    out
}

/// The index just after the last character before `n` that is no white
/// space, or zero.
pub open spec fn trim_end_index(s: Seq<char>, n: int) -> int
    decreases n,
{
    if 0 < n <= s.len() && is_space(s[n - 1]) {
        trim_end_index(s, n - 1)
    } else {
        n
    }
}

/// `s` without leading and trailing white space.
pub open spec fn trim(s: Seq<char>) -> Seq<char> {
    let a = skip_spaces(s, 0);
    let b = trim_end_index(s, s.len() as int);
    if a < b {
        s.subrange(a, b)
    } else {
        seq![]
    }
}

/// `s` without leading and trailing white space.
pub fn trim_chars(s: &Vec<char>) -> (r: Vec<char>)
    ensures
        r@ == trim(s@),
{
    let a = skip_spaces_in(s, 0);
    let mut b: usize = s.len();
    while b > 0 && is_space_char(s[b - 1])
        invariant
            b <= s.len(),
            trim_end_index(s@, s@.len() as int) == trim_end_index(s@, b as int),
        decreases b,
    {
        b -= 1;
    }
    if a < b {
        chars_range(s, a, b)
    } else {
        Vec::new()
    }
}

} // verus!
