//! Alphabetical order of texts, and sorted lists of texts that hold no text
//! twice, whatever the case of its ASCII letters.

use vstd::prelude::*;
use crate::casing::{chars_eq_ignore_case, eq_ignore_case};
use crate::text::{chars_of, owned, texts};

verus! {

/// Whether `a` comes before `b` by what they hold at index `k`: they agree
/// before `k`, and there `a` ends or holds the smaller character.
pub open spec fn precedes_at(a: Seq<char>, b: Seq<char>, k: int) -> bool {
    &&& 0 <= k <= a.len()
    &&& k < b.len()
    &&& a.take(k) == b.take(k)
    &&& (k < a.len() ==> a[k] < b[k])
}

/// Whether `a` comes strictly before `b` in alphabetical order: the order of
/// the first character in which they differ, a prefix coming before any
/// text that continues it.
pub open spec fn lex_lt(a: Seq<char>, b: Seq<char>) -> bool {
    exists|k: int| precedes_at(a, b, k)
}

/// Whether each text of `list` comes strictly before the next.
pub open spec fn strictly_sorted(list: Seq<Seq<char>>) -> bool {
    forall|i: int, j: int| 0 <= i < j < list.len() ==> lex_lt(#[trigger] list[i], #[trigger] list[j])
}

/// Two texts that agree up to `k` and precede one another differ at one
/// index only.
proof fn lemma_precedes_unique(a: Seq<char>, b: Seq<char>, k: int, m: int)
    requires
        precedes_at(a, b, k),
        0 <= m <= a.len(),
        m <= b.len(),
        a.take(m) == b.take(m),
    ensures
        m <= k,
{
    if m > k {
        assert(a.take(m)[k] == a[k]);
        assert(b.take(m)[k] == b[k]);
    }
}

/// No text comes before itself.
pub proof fn lemma_lex_irreflexive(a: Seq<char>)
    ensures
        !lex_lt(a, a),
{
}

/// Of two texts, one comes before the other or they are equal.
pub proof fn lemma_lex_total(a: Seq<char>, b: Seq<char>)
    ensures
        lex_lt(a, b) || lex_lt(b, a) || a == b,
{
    assert(a.take(0) =~= b.take(0));
    lemma_lex_total_from(a, b, 0);
}

/// Of two texts that agree before index `k`, one comes before the other or
/// they are equal.
proof fn lemma_lex_total_from(a: Seq<char>, b: Seq<char>, k: int)
    requires
        0 <= k <= a.len(),
        k <= b.len(),
        a.take(k) == b.take(k),
    ensures
        lex_lt(a, b) || lex_lt(b, a) || a == b,
    decreases a.len() - k,
{
    if k == a.len() {
        if k == b.len() {
            assert(a.take(k) == a);
            assert(b.take(k) == b);
        } else {
            assert(precedes_at(a, b, k));
        }
    } else if k == b.len() {
        assert(precedes_at(b, a, k));
    } else if a[k] == b[k] {
        assert(a.take(k + 1) =~= a.take(k).push(a[k]));
        assert(b.take(k + 1) =~= b.take(k).push(b[k]));
        lemma_lex_total_from(a, b, k + 1);
    } else if a[k] < b[k] {
        assert(precedes_at(a, b, k));
    } else {
        assert(precedes_at(b, a, k));
    }
}

/// Alphabetical order is transitive.
pub proof fn lemma_lex_transitive(a: Seq<char>, b: Seq<char>, c: Seq<char>)
    requires
        lex_lt(a, b),
        lex_lt(b, c),
    ensures
        lex_lt(a, c),
{
    let k1 = choose|k: int| precedes_at(a, b, k);
    let k2 = choose|k: int| precedes_at(b, c, k);
    let k = if k1 <= k2 {
        k1
    } else {
        k2
    };
    assert(a.take(k) =~= a.take(k1).take(k));
    assert(b.take(k) =~= b.take(k1).take(k));
    assert(b.take(k) =~= b.take(k2).take(k));
    assert(c.take(k) =~= c.take(k2).take(k));
    if k1 < k2 {
        assert(b.take(k2)[k1] == b[k1]);
        assert(c.take(k2)[k1] == c[k1]);
    } else if k2 < k1 {
        assert(a.take(k1)[k2] == a[k2]);
        assert(b.take(k1)[k2] == b[k2]);
    }
    assert(precedes_at(a, c, k));
}

/// Alphabetical order is asymmetric.
pub proof fn lemma_lex_asymmetric(a: Seq<char>, b: Seq<char>)
    requires
        lex_lt(a, b),
    ensures
        !lex_lt(b, a),
{
    if lex_lt(b, a) {
        lemma_lex_transitive(a, b, a);
    }
}

/// Whether `a` comes strictly before `b` in alphabetical order.
pub fn chars_lt(a: &Vec<char>, b: &Vec<char>) -> (r: bool)
    ensures
        r == lex_lt(a@, b@),
{
    let mut i: usize = 0;
    while i < a.len() && i < b.len() && a[i] == b[i]
        invariant
            i <= a.len(),
            i <= b.len(),
            a@.take(i as int) == b@.take(i as int),
        decreases a.len() - i,
    {
        assert(a@.take(i + 1) =~= a@.take(i as int).push(a@[i as int]));
        assert(b@.take(i + 1) =~= b@.take(i as int).push(b@[i as int]));
        i += 1;
    }
    let r = if i == b.len() {
        false
    } else if i == a.len() {
        true
    } else {
        a[i] < b[i]
    };
    proof {
        if r {
            assert(precedes_at(a@, b@, i as int));
        } else {
            assert forall|k: int| !precedes_at(a@, b@, k) by {
                if precedes_at(a@, b@, k) {
                    lemma_precedes_unique(a@, b@, k, i as int);
                    if k > i {
                        assert(a@.take(k)[i as int] == a@[i as int]);
                        assert(b@.take(k)[i as int] == b@[i as int]);
                    }
                }
            }
        }
    }
    r
}

/// Whether `list` holds a text equal to `x` but for the case of ASCII
/// letters.
pub open spec fn holds_ignore_case(list: Seq<Seq<char>>, x: Seq<char>) -> bool {
    exists|j: int| 0 <= j < list.len() && eq_ignore_case(#[trigger] list[j], x)
}

/// The number of texts at the front of `list`, from index `i` on, that come
/// before `x`; added to `i`.
pub open spec fn rank_from(list: Seq<Seq<char>>, x: Seq<char>, i: int) -> int
    decreases list.len() - i,
{
    if 0 <= i < list.len() && lex_lt(list[i], x) {
        rank_from(list, x, i + 1)
    } else {
        i
    }
}

/// The index at which `x` enters a sorted `list`: after the texts that come
/// before it.
pub open spec fn rank(list: Seq<Seq<char>>, x: Seq<char>) -> int {
    rank_from(list, x, 0)
}

/// `list` with `x` added in its place, unless `list` already holds `x` in
/// some case of its letters.
pub open spec fn add_distinct(list: Seq<Seq<char>>, x: Seq<char>) -> Seq<Seq<char>> {
    if holds_ignore_case(list, x) {
        list
    } else {
        list.insert(rank(list, x), x)
    }
}

/// `rank_from` stays within the list, passes only texts that come before
/// `x`, and stops at one that does not.
pub proof fn lemma_rank_from(list: Seq<Seq<char>>, x: Seq<char>, i: int)
    requires
        0 <= i <= list.len(),
    ensures
        i <= rank_from(list, x, i) <= list.len(),
        forall|k: int| i <= k < rank_from(list, x, i) ==> lex_lt(#[trigger] list[k], x),
        rank_from(list, x, i) < list.len() ==> !lex_lt(list[rank_from(list, x, i)], x),
    decreases list.len() - i,
{
    if i < list.len() && lex_lt(list[i], x) {
        lemma_rank_from(list, x, i + 1);
    }
}

/// Adding a text to a sorted list leaves it sorted.
pub proof fn lemma_add_distinct_sorted(list: Seq<Seq<char>>, x: Seq<char>)
    requires
        strictly_sorted(list),
    ensures
        strictly_sorted(add_distinct(list, x)),
{
    if !holds_ignore_case(list, x) {
        let r = rank(list, x);
        lemma_rank_from(list, x, 0);
        let out = list.insert(r, x);
        assert forall|i: int, j: int| 0 <= i < j < out.len() implies lex_lt(
            #[trigger] out[i],
            #[trigger] out[j],
        ) by {
            if j == r {
                assert(out[i] == list[i]);
            } else if i == r {
                // everything from `r` on is not before `x`, and differs from it
                let y = list[j - 1];
                assert(out[j] == y);
                assert(!eq_ignore_case(y, x));
                assert(y != x);
                lemma_lex_total(x, y);
                if lex_lt(y, x) {
                    if j - 1 > r {
                        lemma_lex_transitive(list[r], y, x);
                    }
                }
            } else {
                let a = if i < r {
                    i
                } else {
                    i - 1
                };
                let b = if j < r {
                    j
                } else {
                    j - 1
                };
                assert(out[i] == list[a]);
                assert(out[j] == list[b]);
            }
        }
    }
}

/// After adding `x`, the list holds `x` in some case of its letters, and
/// every text it held before.
pub proof fn lemma_add_distinct_holds(list: Seq<Seq<char>>, x: Seq<char>)
    ensures
        holds_ignore_case(add_distinct(list, x), x),
        forall|y: Seq<char>| list.contains(y) ==> add_distinct(list, x).contains(y),
        forall|y: Seq<char>| add_distinct(list, x).contains(y) ==> list.contains(y) || y == x,
{
    if !holds_ignore_case(list, x) {
        let r = rank(list, x);
        lemma_rank_from(list, x, 0);
        let out = list.insert(r, x);
        assert(out[r] == x);
        assert(eq_ignore_case(out[r], x));
        assert forall|y: Seq<char>| list.contains(y) implies out.contains(y) by {
            let i = choose|i: int| 0 <= i < list.len() && list[i] == y;
            if i < r {
                assert(out[i] == y);
            } else {
                assert(out[i + 1] == y);
            }
        }
        assert forall|y: Seq<char>| out.contains(y) implies list.contains(y) || y == x by {
            let i = choose|i: int| 0 <= i < out.len() && out[i] == y;
            if i < r {
                assert(list[i] == y);
            } else if i > r {
                assert(list[i - 1] == y);
            }
        }
    }
}

/// A copy of `list` with `x` added in its place, unless `list` already
/// holds `x` in some case of its letters.
pub fn with_distinct(list: &Vec<String>, x: &str) -> (out: Vec<String>)
    ensures
        texts(out@) == add_distinct(texts(list@), x@),
{
    let xs = chars_of(x);
    let ghost before = texts(list@);
    let mut out: Vec<String> = Vec::new();
    let mut held = false;
    let mut place: usize = 0;
    let mut passing = true;
    let mut i: usize = 0;
    while i < list.len()
        invariant
            i <= list.len(),
            before == texts(list@),
            xs@ == x@,
            out.len() == i,
            forall|k: int| 0 <= k < i ==> out@[k]@ == before[k],
            held == (exists|j: int| 0 <= j < i && eq_ignore_case(#[trigger] before[j], x@)),
            place <= i,
            passing ==> place == i,
            rank(before, x@) == if passing {
                rank_from(before, x@, i as int)
            } else {
                place as int
            },
        decreases list.len() - i,
    {
        let item = chars_of(list[i].as_str());
        assert(item@ == before[i as int]);
        if chars_eq_ignore_case(&item, &xs) {
            held = true;
        }
        if passing {
            if chars_lt(&item, &xs) {
                place = i + 1;
            } else {
                passing = false;
            }
        }
        out.push(list[i].clone());
        i += 1;
    }
    assert(texts(out@) =~= before);
    assert(held == holds_ignore_case(before, x@));
    if held {
        return out;
    }
    out.insert(place, owned(x));
    assert(texts(out@) =~= before.insert(place as int, x@));
    out
}

} // verus!
