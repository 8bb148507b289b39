//! Ordering decisions of the token sampler.
//!
//! Logits and probabilities arrive as raw single-precision bit patterns. For
//! every value that is not a NaN, `float_rank` orders bit patterns exactly as
//! the floats they encode compare, with `-0.0` and `+0.0` tied.

use vstd::prelude::*;

verus! {

/// Position of a single-precision bit pattern in the float order: the
/// magnitude bits, negated when the sign bit is set.
pub open spec fn float_rank(bits: u32) -> int {
    if bits < 0x8000_0000 {
        bits as int
    } else {
        -(bits as int - 0x8000_0000)
    }
}

/// A sort key that ascends as the float rank descends.
pub open spec fn descending_key(bits: u32) -> int {
    0x7FFF_FFFF - float_rank(bits)
}

/// In the nucleus order, index `a` of `p` comes before index `b`: it has the
/// larger probability, or the same and the smaller index.
pub open spec fn comes_before(p: Seq<u32>, a: int, b: int) -> bool {
    float_rank(p[a]) > float_rank(p[b]) || (float_rank(p[a]) == float_rank(p[b]) && a < b)
}

/// Lexicographic `<=` on pairs of integers.
pub open spec fn pair_le(x: (u32, usize), y: (u32, usize)) -> bool {
    x.0 < y.0 || (x.0 == y.0 && x.1 <= y.1)
}

/// Relies on `slice::sort_unstable`: afterwards the vector holds the same
/// elements in ascending order, and std orders tuples lexicographically.
#[verifier::external_body]
fn sort_pairs(v: &mut Vec<(u32, usize)>)
    ensures
        final(v)@.to_multiset() == old(v)@.to_multiset(),
        forall|i: int, j: int| 0 <= i < j < final(v)@.len() ==> pair_le(#[trigger] final(v)@[i], #[trigger] final(v)@[j]),
{
    v.sort_unstable();
}

/// Returns the float rank of a bit pattern.
pub fn rank(bits: u32) -> (r: i64)
    ensures
        r == float_rank(bits),
{
    if bits < 0x8000_0000 {
        bits as i64
    } else {
        -((bits - 0x8000_0000) as i64)
    }
}

/// Returns the index of the largest value (the first one on ties).
pub fn argmax(x: &[u32]) -> (r: usize)
    requires
        x@.len() > 0,
    ensures
        r < x@.len(),
        forall|j: int| 0 <= j < x@.len() ==> float_rank(#[trigger] x@[j]) <= float_rank(x@[r as int]),
        forall|j: int| 0 <= j < r ==> float_rank(#[trigger] x@[j]) < float_rank(x@[r as int]),
{
    let mut best: usize = 0;
    let mut best_rank = rank(x[0]);
    let mut i: usize = 1;
    while i < x.len()
        invariant
            0 < i <= x@.len(),
            best < i,
            best_rank == float_rank(x@[best as int]),
            forall|j: int| 0 <= j < i ==> float_rank(#[trigger] x@[j]) <= best_rank,
            forall|j: int| 0 <= j < best ==> float_rank(#[trigger] x@[j]) < best_rank,
        decreases x@.len() - i,
    {
        let r = rank(x[i]);
        if r > best_rank {
            best = i;
            best_rank = r;
        }
        i = i + 1;
    }
    best
}

/// Returns every index of `probs` once, ordered by descending probability,
/// equal probabilities by ascending index: the order in which nucleus
/// sampling accumulates mass.
pub fn nucleus_order(probs: &[u32]) -> (r: Vec<usize>)
    ensures
        r@.len() == probs@.len(),
        forall|t: int| 0 <= t < r@.len() ==> #[trigger] r@[t] < probs@.len(),
        forall|i: usize| i < probs@.len() ==> #[trigger] r@.contains(i),
        forall|s: int, t: int|
            0 <= s < t < r@.len() ==> comes_before(probs@, #[trigger] r@[s] as int, #[trigger] r@[t] as int),
{
    let n = probs.len();
    let mut pairs: Vec<(u32, usize)> = Vec::with_capacity(n);
    let mut i: usize = 0;
    while i < n
        invariant
            n == probs@.len(),
            i <= n,
            pairs@.len() == i,
            forall|k: int| 0 <= k < i ==> #[trigger] pairs@[k] == (descending_key(probs@[k]) as u32, k as usize),
            forall|k: int| 0 <= k < i ==> 0 <= #[trigger] descending_key(probs@[k]) < 0x1_0000_0000,
        decreases n - i,
    {
        let key = (0x7FFF_FFFFi64 - rank(probs[i])) as u32;
        pairs.push((key, i));
        i = i + 1;
    }
    let ghost before = pairs@;
    proof {
        assert(before.no_duplicates()) by {
            assert forall|a: int, b: int| 0 <= a < before.len() && 0 <= b < before.len() && a != b
                implies before[a] != before[b] by {
                assert(before[a].1 == a && before[b].1 == b);
            }
        }
        before.lemma_multiset_has_no_duplicates();
    }
    sort_pairs(&mut pairs);
    let ghost after = pairs@;
    proof {
        broadcast use vstd::seq_lib::group_to_multiset_ensures;
        assert(after.to_multiset().len() == before.to_multiset().len());
        assert(after.len() == before.len());
        assert forall|x: (u32, usize)| after.to_multiset().contains(x) implies after.to_multiset().count(x) == 1 by {}
        after.lemma_multiset_has_no_duplicates_conv();
        assert forall|t: int| 0 <= t < after.len() implies (#[trigger] after[t]).1 < n
            && after[t].0 == descending_key(probs@[after[t].1 as int]) by {
            assert(after.to_multiset().count(after[t]) > 0);
            assert(before.contains(after[t]));
        }
    }
    let mut r: Vec<usize> = Vec::with_capacity(n);
    let mut t: usize = 0;
    while t < n
        invariant
            n == probs@.len(),
            after == pairs@,
            after.len() == n,
            t <= n,
            r@.len() == t,
            forall|k: int| 0 <= k < t ==> #[trigger] r@[k] == after[k].1,
        decreases n - t,
    {
        r.push(pairs[t].1);
        t = t + 1;
    }
    proof {
        broadcast use vstd::seq_lib::group_to_multiset_ensures;
        assert forall|i: usize| i < n implies #[trigger] r@.contains(i) by {
            let x = before[i as int];
            assert(before.to_multiset().count(x) > 0);
            assert(after.contains(x));
            let t = choose|t: int| 0 <= t < after.len() && after[t] == x;
            assert(r@[t] == i);
        }
        assert forall|s: int, t: int| 0 <= s < t < r@.len() implies
            comes_before(probs@, #[trigger] r@[s] as int, #[trigger] r@[t] as int) by {
            assert(pair_le(after[s], after[t]));
            assert(after[s] != after[t]);
            assert(after[s].1 != after[t].1);
        }
    }
    r
}

} // verus!
