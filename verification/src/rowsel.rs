//! Row-index selection, the common shape of every filter stage.
//!
//! A filter stage takes a sequence of candidate row indices and keeps those
//! whose row satisfies a predicate; `Seq::filter` is the mathematical form of
//! that selection. This module holds the facts about it that the filter
//! contracts and their callers need.

use vstd::prelude::*;

verus! {

/// The first `n` row indices, in ascending order: `0, 1, ..., n - 1`.
pub open spec fn row_idxs(n: nat) -> Seq<u32> {
    Seq::new(n, |i: int| i as u32)
}

/// The rows a gather stage produces: the rows at the given indices, in the
/// order the indices are listed.
pub open spec fn gathered<A>(rows: Seq<A>, idxs: Seq<u32>) -> Seq<A> {
    idxs.map_values(|v: u32| rows[v as int])
}

/// `row_idxs(n)` contains exactly the indices below `n`.
pub proof fn lemma_row_idxs_elems(n: nat, v: u32)
    requires
        n <= u32::MAX + 1,
    ensures
        row_idxs(n).contains(v) <==> (v as nat) < n,
{
    if (v as nat) < n {
        assert(row_idxs(n)[v as int] == v);
    }
}

/// Unfolds one step of `Seq::filter` along a growing prefix: filtering the
/// prefix of length `k + 1` keeps the filtered prefix of length `k` and then
/// keeps or drops element `k`.
pub proof fn lemma_filter_step<A>(s: Seq<A>, p: spec_fn(A) -> bool, k: int)
    requires
        0 <= k < s.len(),
    ensures
        s.subrange(0, k + 1).filter(p) == if p(s[k]) {
            s.subrange(0, k).filter(p).push(s[k])
        } else {
            s.subrange(0, k).filter(p)
        },
{
    reveal(Seq::filter);
    let t = s.subrange(0, k + 1);
    assert(t.drop_last() =~= s.subrange(0, k));
    assert(t.last() == s[k]);
}

/// Two predicates that agree on every element of a sequence filter it to the
/// same result.
pub proof fn lemma_filter_agree<A>(s: Seq<A>, p1: spec_fn(A) -> bool, p2: spec_fn(A) -> bool)
    requires
        forall|x: A| s.contains(x) ==> p1(x) == p2(x),
    ensures
        s.filter(p1) == s.filter(p2),
    decreases s.len(),
{
    reveal(Seq::filter);
    if s.len() > 0 {
        assert forall|x: A| s.drop_last().contains(x) implies p1(x) == p2(x) by {
            let i = choose|i: int| 0 <= i < s.drop_last().len() && s.drop_last()[i] == x;
            assert(s[i] == x);
            assert(s.contains(x));
        }
        lemma_filter_agree(s.drop_last(), p1, p2);
        assert(s.contains(s.last()));
    }
}

/// In a strictly ascending index sequence, everything a filtered prefix keeps
/// is below the next index to be scanned.
pub proof fn lemma_filter_prefix_bound(idxs: Seq<u32>, p: spec_fn(u32) -> bool, j: int)
    requires
        0 <= j < idxs.len(),
        forall|a: int, b: int| 0 <= a < b < idxs.len() ==> idxs[a] < idxs[b],
    ensures
        forall|u: u32| idxs.subrange(0, j).filter(p).contains(u) ==> u < idxs[j],
{
    assert forall|u: u32| idxs.subrange(0, j).filter(p).contains(u) implies u < idxs[j] by {
        lemma_filter_elems(idxs.subrange(0, j), p, u);
        let k = choose|k: int| 0 <= k < j && idxs.subrange(0, j)[k] == u;
        assert(idxs[k] == u);
    }
}

/// A filtered sequence contains exactly the elements of the original that
/// satisfy the predicate.
pub proof fn lemma_filter_elems<A>(s: Seq<A>, p: spec_fn(A) -> bool, v: A)
    ensures
        s.filter(p).contains(v) <==> (s.contains(v) && p(v)),
    decreases s.len(),
{
    reveal(Seq::filter);
    if s.len() == 0 {
    } else {
        lemma_filter_elems(s.drop_last(), p, v);
        if s.contains(v) {
            let i = choose|i: int| 0 <= i < s.len() && s[i] == v;
            if i < s.len() - 1 {
                assert(s.drop_last()[i] == v);
            }
        }
        if s.drop_last().contains(v) {
            let i = choose|i: int| 0 <= i < s.drop_last().len() && s.drop_last()[i] == v;
            assert(s[i] == v);
        }
        if s.drop_last().filter(p).contains(v) {
            let i = choose|i: int|
                0 <= i < s.drop_last().filter(p).len() && s.drop_last().filter(p)[i] == v;
            if p(s.last()) {
                assert(s.filter(p)[i] == v);
            }
        }
        if p(s.last()) && v == s.last() {
            assert(s.filter(p).last() == v);
        }
    }
}

} // verus!
