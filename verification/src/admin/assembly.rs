//! Final ordering of the endpoint list.
//!
//! The list that a scan hands out holds one endpoint per port and protocol,
//! in ascending order of port, TCP before UDP. Where a port and protocol is
//! bound on several addresses, the endpoint that the tables show first
//! stands for all of them.

use vstd::prelude::*;
use crate::admin::network::{endpoint_views, EndpointView, ListeningEndpoint, Protocol};

verus! {

/// The number by which endpoints are ordered: by port, then TCP before
/// UDP.
pub open spec fn sort_key(e: EndpointView) -> int {
    e.port as int * 2 + e.protocol.ordinal()
}

/// Whether each endpoint's key is below the next one's.
pub open spec fn strictly_ascending(s: Seq<EndpointView>) -> bool {
    forall|i: int, j: int| 0 <= i < j < s.len() ==> sort_key(#[trigger] s[i]) < sort_key(#[trigger] s[j])
}

/// Whether `input[j]` is the first endpoint of `input` with its port and
/// protocol.
pub open spec fn first_of_pair(input: Seq<EndpointView>, j: int) -> bool {
    &&& 0 <= j < input.len()
    &&& forall|k: int| 0 <= k < j ==> sort_key(#[trigger] input[k]) != sort_key(input[j])
}

/// Whether `e` is the first endpoint of `input` with its port and protocol.
pub open spec fn is_first(input: Seq<EndpointView>, e: EndpointView) -> bool {
    exists|j: int| #[trigger] first_of_pair(input, j) && input[j] == e
}

/// Whether `out` holds an endpoint of the given key.
pub open spec fn has_key(out: Seq<EndpointView>, key: int) -> bool {
    exists|i: int| 0 <= i < out.len() && #[trigger] sort_key(out[i]) == key
}

/// Whether `out` holds, in ascending order, exactly the first endpoint of
/// each port and protocol of `input`.
pub open spec fn is_assembly(input: Seq<EndpointView>, out: Seq<EndpointView>) -> bool {
    &&& strictly_ascending(out)
    &&& forall|i: int| 0 <= i < out.len() ==> #[trigger] is_first(input, out[i])
    &&& forall|j: int| 0 <= j < input.len() ==> #[trigger] has_key(out, sort_key(input[j]))
}

/// The index, from `i` on, of the first endpoint of `out` whose key is not
/// below `key`, or the length of `out`.
pub open spec fn rank_from(out: Seq<EndpointView>, key: int, i: int) -> int
    decreases out.len() - i,
{
    if 0 <= i < out.len() && sort_key(out[i]) < key {
        rank_from(out, key, i + 1)
    } else {
        i
    }
}

/// `out` with `e` in its place, unless `out` holds an endpoint of the same
/// port and protocol.
pub open spec fn placed(out: Seq<EndpointView>, e: EndpointView) -> Seq<EndpointView> {
    let pos = rank_from(out, sort_key(e), 0);
    if 0 <= pos < out.len() && sort_key(out[pos]) == sort_key(e) {
        out
    } else {
        out.insert(pos, e)
    }
}

/// The assembled list of `input`: its endpoints placed one after another.
/// It is the one list that holds, in ascending order, the first endpoint of
/// each port and protocol.
pub open spec fn assembled(input: Seq<EndpointView>) -> Seq<EndpointView>
    decreases input.len(),
{
    if input.len() == 0 {
        seq![]
    } else {
        placed(assembled(input.drop_last()), input.last())
    }
}

/// `rank_from` passes only lower keys and stops within the list at a key
/// that is not lower.
pub proof fn lemma_rank_from(out: Seq<EndpointView>, key: int, i: int)
    requires
        0 <= i <= out.len(),
    ensures
        i <= rank_from(out, key, i) <= out.len(),
        forall|k: int| i <= k < rank_from(out, key, i) ==> sort_key(#[trigger] out[k]) < key,
        rank_from(out, key, i) < out.len() ==> sort_key(out[rank_from(out, key, i)]) >= key,
    decreases out.len() - i,
{
    if i < out.len() && sort_key(out[i]) < key {
        lemma_rank_from(out, key, i + 1);
    }
}

/// Where two assembled lists of one input agree in their keys below index
/// `n - 1`, the second is no shorter than `n` and its key at `n - 1` is no
/// higher than the first's.
proof fn lemma_keys_agree(input: Seq<EndpointView>, a: Seq<EndpointView>, b: Seq<EndpointView>, n: int)
    requires
        is_assembly(input, a),
        is_assembly(input, b),
        0 <= n <= a.len(),
        forall|k: int| 0 <= k < n - 1 && k < b.len() ==> sort_key(#[trigger] a[k]) == sort_key(b[k]),
        n - 1 <= b.len(),
    ensures
        n <= b.len(),
        n > 0 ==> sort_key(b[n - 1]) <= sort_key(a[n - 1]),
{
    if n > 0 {
        let i = n - 1;
        assert(is_first(input, a[i]));
        let j = choose|j: int| #[trigger] first_of_pair(input, j) && input[j] == a[i];
        assert(has_key(b, sort_key(input[j])));
        let m = choose|m: int| 0 <= m < b.len() && #[trigger] sort_key(b[m]) == sort_key(input[j]);
        if m < i {
            assert(sort_key(a[m]) == sort_key(b[m]));
            assert(sort_key(a[m]) < sort_key(a[i]));
        }
        if m > i {
            assert(sort_key(b[i]) < sort_key(b[m]));
        }
    }
}

/// Two assembled lists of one input hold the same keys at the same
/// indices, and neither goes on where the other ends.
proof fn lemma_keys_equal(input: Seq<EndpointView>, a: Seq<EndpointView>, b: Seq<EndpointView>, n: int)
    requires
        is_assembly(input, a),
        is_assembly(input, b),
        0 <= n <= a.len(),
        0 <= n <= b.len(),
    ensures
        forall|k: int| 0 <= k < n ==> sort_key(#[trigger] a[k]) == sort_key(b[k]),
        n < a.len() ==> n < b.len(),
        n < b.len() ==> n < a.len(),
    decreases n,
{
    if n > 0 {
        lemma_keys_equal(input, a, b, n - 1);
        lemma_keys_agree(input, a, b, n);
        assert forall|k: int| 0 <= k < n - 1 && k < a.len() implies sort_key(#[trigger] b[k])
            == sort_key(a[k]) by {
            assert(sort_key(a[k]) == sort_key(b[k]));
        }
        lemma_keys_agree(input, b, a, n);
    }
    assert forall|k: int| 0 <= k < n && k < b.len() implies sort_key(#[trigger] a[k]) == sort_key(
        b[k],
    ) by {}
    assert forall|k: int| 0 <= k < n && k < a.len() implies sort_key(#[trigger] b[k]) == sort_key(
        a[k],
    ) by {
        assert(sort_key(a[k]) == sort_key(b[k]));
    }
    if n < a.len() {
        lemma_keys_agree(input, a, b, n + 1);
    }
    if n < b.len() {
        lemma_keys_agree(input, b, a, n + 1);
    }
}

/// Two assembled lists of one input are of one length.
proof fn lemma_lengths_equal(input: Seq<EndpointView>, a: Seq<EndpointView>, b: Seq<EndpointView>, n: int)
    requires
        is_assembly(input, a),
        is_assembly(input, b),
        0 <= n <= a.len(),
        0 <= n <= b.len(),
    ensures
        a.len() == b.len(),
    decreases a.len() - n,
{
    lemma_keys_equal(input, a, b, n);
    if n < a.len() {
        lemma_lengths_equal(input, a, b, n + 1);
    }
}

/// A list has one assembled list only: the same input gives the same
/// endpoints in the same order.
pub proof fn lemma_assembly_unique(input: Seq<EndpointView>, a: Seq<EndpointView>, b: Seq<EndpointView>)
    requires
        is_assembly(input, a),
        is_assembly(input, b),
    ensures
        a == b,
{
    lemma_lengths_equal(input, a, b, 0);
    lemma_keys_equal(input, a, b, a.len() as int);
    assert forall|i: int| 0 <= i < a.len() implies a[i] == b[i] by {
        assert(is_first(input, a[i]));
        assert(is_first(input, b[i]));
        let j = choose|j: int| #[trigger] first_of_pair(input, j) && input[j] == a[i];
        let j2 = choose|j2: int| #[trigger] first_of_pair(input, j2) && input[j2] == b[i];
        assert(sort_key(a[i]) == sort_key(b[i]));
        if j < j2 {
            assert(sort_key(input[j]) != sort_key(input[j2]));
        }
        if j2 < j {
            assert(sort_key(input[j2]) != sort_key(input[j]));
        }
    }
    assert(a =~= b);
}

/// Every port and protocol of the input has exactly one endpoint in the
/// assembled list.
pub proof fn lemma_one_per_pair(input: Seq<EndpointView>, out: Seq<EndpointView>, j: int)
    requires
        is_assembly(input, out),
        0 <= j < input.len(),
    ensures
        exists|i: int|
            0 <= i < out.len() && #[trigger] sort_key(out[i]) == sort_key(input[j]) && forall|k: int|
                0 <= k < out.len() && k != i ==> #[trigger] sort_key(out[k]) != sort_key(input[j]),
{
    assert(has_key(out, sort_key(input[j])));
    let i = choose|i: int| 0 <= i < out.len() && #[trigger] sort_key(out[i]) == sort_key(input[j]);
    assert forall|k: int| 0 <= k < out.len() && k != i implies #[trigger] sort_key(out[k])
        != sort_key(input[j]) by {
        if k < i {
            assert(sort_key(out[k]) < sort_key(out[i]));
        } else {
            assert(sort_key(out[i]) < sort_key(out[k]));
        }
    }
}

/// The number by which an endpoint is ordered.
pub fn key_of(e: &ListeningEndpoint) -> (r: u32)
    ensures
        r == sort_key(e@),
{
    let ordinal: u32 = match e.protocol {
        Protocol::Tcp => 0,
        Protocol::Udp => 1,
    };
    e.port as u32 * 2 + ordinal
}

/// The first of a pair stays the first when the input grows.
proof fn lemma_first_kept(seen: Seq<EndpointView>, next: Seq<EndpointView>, e: EndpointView)
    requires
        is_first(seen, e),
        seen.len() <= next.len(),
        forall|k: int| 0 <= k < seen.len() ==> next[k] == seen[k],
    ensures
        is_first(next, e),
{
    let j = choose|j: int| #[trigger] first_of_pair(seen, j) && seen[j] == e;
    assert forall|k: int| 0 <= k < j implies sort_key(#[trigger] next[k]) != sort_key(next[j]) by {
        assert(sort_key(seen[k]) != sort_key(seen[j]));
    }
    assert(first_of_pair(next, j) && next[j] == e);
}

/// A key that a list holds is held after an endpoint has been inserted.
proof fn lemma_key_kept(before: Seq<EndpointView>, pos: int, e: EndpointView, key: int)
    requires
        0 <= pos <= before.len(),
        has_key(before, key) || sort_key(e) == key,
    ensures
        has_key(before.insert(pos, e), key),
{
    let after = before.insert(pos, e);
    if sort_key(e) == key {
        assert(sort_key(after[pos]) == key);
    } else {
        let i = choose|i: int| 0 <= i < before.len() && #[trigger] sort_key(before[i]) == key;
        let m = if i < pos {
            i
        } else {
            i + 1
        };
        assert(after[m] == before[i]);
        assert(sort_key(after[m]) == key);
    }
}

/// Inserting an endpoint between lower and higher keys keeps the order.
proof fn lemma_insert_ascending(before: Seq<EndpointView>, pos: int, e: EndpointView)
    requires
        strictly_ascending(before),
        0 <= pos <= before.len(),
        forall|k: int| 0 <= k < pos ==> sort_key(#[trigger] before[k]) < sort_key(e),
        pos < before.len() ==> sort_key(e) < sort_key(before[pos]),
    ensures
        strictly_ascending(before.insert(pos, e)),
{
    let after = before.insert(pos, e);
    assert forall|i: int, j: int| 0 <= i < j < after.len() implies sort_key(#[trigger] after[i])
        < sort_key(#[trigger] after[j]) by {
        if i == pos {
            assert(after[j] == before[j - 1]);
            if j - 1 > pos {
                assert(sort_key(before[pos]) < sort_key(before[j - 1]));
            }
        } else if j == pos {
            assert(after[i] == before[i]);
        } else {
            let a = if i < pos {
                i
            } else {
                i - 1
            };
            let b = if j < pos {
                j
            } else {
                j - 1
            };
            assert(after[i] == before[a] && after[j] == before[b]);
            assert(sort_key(before[a]) < sort_key(before[b]));
        }
    }
}

/// The assembled list stays one when the next endpoint's key is there
/// already.
proof fn lemma_step_present(seen: Seq<EndpointView>, next: Seq<EndpointView>, out: Seq<EndpointView>)
    requires
        is_assembly(seen, out),
        next.len() == seen.len() + 1,
        forall|k: int| 0 <= k < seen.len() ==> next[k] == seen[k],
        has_key(out, sort_key(next[seen.len() as int])),
    ensures
        is_assembly(next, out),
{
    assert forall|i: int| 0 <= i < out.len() implies #[trigger] is_first(next, out[i]) by {
        assert(is_first(seen, out[i]));
        lemma_first_kept(seen, next, out[i]);
    }
    assert forall|j: int| 0 <= j < next.len() implies #[trigger] has_key(out, sort_key(next[j])) by {
        if j < seen.len() {
            assert(has_key(out, sort_key(seen[j])));
        }
    }
}

/// The assembled list stays one when the next endpoint, whose key is not
/// there yet, enters in its place.
proof fn lemma_step_absent(
    seen: Seq<EndpointView>,
    next: Seq<EndpointView>,
    out: Seq<EndpointView>,
    pos: int,
)
    requires
        is_assembly(seen, out),
        next.len() == seen.len() + 1,
        forall|k: int| 0 <= k < seen.len() ==> next[k] == seen[k],
        0 <= pos <= out.len(),
        forall|k: int| 0 <= k < pos ==> sort_key(#[trigger] out[k]) < sort_key(next[seen.len() as int]),
        pos < out.len() ==> sort_key(next[seen.len() as int]) < sort_key(out[pos]),
    ensures
        is_assembly(next, out.insert(pos, next[seen.len() as int])),
{
    let e = next[seen.len() as int];
    let n = seen.len() as int;
    let after = out.insert(pos, e);
    lemma_insert_ascending(out, pos, e);
    assert(first_of_pair(next, n)) by {
        assert forall|k: int| 0 <= k < n implies sort_key(#[trigger] next[k]) != sort_key(next[n]) by {
            assert(has_key(out, sort_key(seen[k])));
            let i = choose|i: int|
                0 <= i < out.len() && #[trigger] sort_key(out[i]) == sort_key(seen[k]);
            if i < pos {
                assert(sort_key(out[i]) < sort_key(e));
            } else if i > pos {
                assert(sort_key(out[pos]) < sort_key(out[i]));
            }
        }
    }
    assert forall|i: int| 0 <= i < after.len() implies #[trigger] is_first(next, after[i]) by {
        if i == pos {
            assert(first_of_pair(next, n) && next[n] == after[i]);
        } else {
            let a = if i < pos {
                i
            } else {
                i - 1
            };
            assert(after[i] == out[a]);
            assert(is_first(seen, out[a]));
            lemma_first_kept(seen, next, out[a]);
        }
    }
    assert forall|j: int| 0 <= j < next.len() implies #[trigger] has_key(after, sort_key(next[j])) by {
        if j < n {
            assert(has_key(out, sort_key(seen[j])));
        }
        lemma_key_kept(out, pos, e, sort_key(next[j]));
    }
}

/// The assembled list holds, in ascending order, exactly the first endpoint
/// of each port and protocol of its input.
pub proof fn lemma_assembled(input: Seq<EndpointView>)
    ensures
        is_assembly(input, assembled(input)),
    decreases input.len(),
{
    if input.len() > 0 {
        let seen = input.drop_last();
        let out = assembled(seen);
        let e = input.last();
        lemma_assembled(seen);
        lemma_rank_from(out, sort_key(e), 0);
        let pos = rank_from(out, sort_key(e), 0);
        if pos < out.len() && sort_key(out[pos]) == sort_key(e) {
            assert(has_key(out, sort_key(e)));
            lemma_step_present(seen, input, out);
        } else {
            lemma_step_absent(seen, input, out, pos);
        }
    }
}

/// Sorts the endpoints by port and protocol and keeps the first of each
/// port and protocol.
pub fn assemble(endpoints: &Vec<ListeningEndpoint>) -> (out: Vec<ListeningEndpoint>)
    ensures
        is_assembly(endpoint_views(endpoints@), endpoint_views(out@)),
        endpoint_views(out@) == assembled(endpoint_views(endpoints@)),
{
    let ghost input = endpoint_views(endpoints@);
    let mut out: Vec<ListeningEndpoint> = Vec::new();
    let mut n: usize = 0;
    assert(is_assembly(input.take(0), endpoint_views(out@)));
    while n < endpoints.len()
        invariant
            n <= endpoints.len(),
            input == endpoint_views(endpoints@),
            is_assembly(input.take(n as int), endpoint_views(out@)),
        decreases endpoints.len() - n,
    {
        let e = &endpoints[n];
        let key = key_of(e);
        let ghost before = endpoint_views(out@);
        let ghost seen = input.take(n as int);
        let ghost next = input.take(n + 1);
        assert(e@ == input[n as int]);
        assert(next[n as int] == e@);
        let mut pos: usize = 0;
        while pos < out.len() && key_of(&out[pos]) < key
            invariant
                pos <= out.len(),
                before == endpoint_views(out@),
                key == sort_key(e@),
                forall|k: int| 0 <= k < pos ==> sort_key(#[trigger] before[k]) < key,
            decreases out.len() - pos,
        {
            assert(before[pos as int] == out@[pos as int]@);
            pos += 1;
        }
        let present = pos < out.len() && key_of(&out[pos]) == key;
        assert(pos < out.len() ==> before[pos as int] == out@[pos as int]@);
        if present {
            proof {
                assert(sort_key(before[pos as int]) == key);
                assert(has_key(before, key as int));
                lemma_step_present(seen, next, before);
            }
        } else {
            out.insert(pos, e.clone());
            proof {
                assert(endpoint_views(out@) =~= before.insert(pos as int, e@));
                lemma_step_absent(seen, next, before, pos as int);
            }
        }
        n += 1;
    }
    proof {
        assert(input.take(endpoints@.len() as int) =~= input);
        lemma_assembled(input);
        lemma_assembly_unique(input, endpoint_views(out@), assembled(input));
    }
    out
}

} // verus!
