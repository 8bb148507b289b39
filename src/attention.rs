//! Addressing for grouped-query attention over the key/value cache.
//!
//! Each layer's cache is a flat array of `seq_len * kv_dim` entries: the key
//! (or value) vector of position `p` fills `kv_dim` entries from `p * kv_dim`.
//! Inside that slot, key/value head `k` owns `head_size` entries from
//! `k * head_size`. Query head `h` reads key/value head `h / group_size`.

use vstd::prelude::*;

use crate::config::{lemma_shapes, LlamaConfig};

verus! {

/// The configuration is valid and one layer's cache is addressable.
pub open spec fn cache_fits(c: LlamaConfig) -> bool {
    &&& c.valid()
    &&& c.seq_len * c.spec_kv_dim() <= usize::MAX
}

/// Key/value head read by query head `h`.
pub open spec fn spec_kv_head(c: LlamaConfig, h: int) -> int {
    h / c.spec_group_size()
}

/// Cache offset of the slot of position `pos`.
pub open spec fn spec_cache_offset(c: LlamaConfig, pos: int) -> int {
    pos * c.spec_kv_dim()
}

/// Cache offset of the slice that query head `h` reads at position `t`.
pub open spec fn spec_slice_offset(c: LlamaConfig, t: int, h: int) -> int {
    spec_cache_offset(c, t) + spec_kv_head(c, h) * c.spec_head_size()
}

/// Offset of query head `h`'s slice in the query and attention-output vectors.
pub open spec fn spec_head_offset(c: LlamaConfig, h: int) -> int {
    h * c.spec_head_size()
}

/// Returns the number of entries in one layer's key (or value) cache,
/// `seq_len * kv_dim`, or `None` when the configuration is invalid or the
/// cache is not addressable.
pub fn cache_len(c: &LlamaConfig) -> (r: Option<usize>)
    ensures
        r is Some <==> cache_fits(*c),
        r is Some ==> r->Some_0 == c.seq_len * c.spec_kv_dim(),
{
    if c.validate().is_err() {
        return None;
    }
    let kv = c.kv_dim();
    (c.seq_len as usize).checked_mul(kv)
}

/// Returns the key/value head that query head `h` reads.
pub fn kv_head(c: &LlamaConfig, h: usize) -> (r: usize)
    requires
        c.valid(),
        h < c.n_heads,
    ensures
        r == spec_kv_head(*c, h as int),
        r < c.n_kv_heads,
{
    proof { lemma_group_mapping(*c, h as int); }
    h / c.group_size()
}

/// Returns the cache offset at which position `pos` is written.
pub fn cache_offset(c: &LlamaConfig, pos: usize) -> (r: usize)
    requires
        cache_fits(*c),
        pos < c.seq_len,
    ensures
        r == spec_cache_offset(*c, pos as int),
        r + c.spec_kv_dim() <= c.seq_len * c.spec_kv_dim(),
{
    let kv = c.kv_dim();
    proof { lemma_slot_inside(pos as int, c.seq_len as int, kv as int, 0, kv as int); }
    pos * kv
}

/// Returns the offset of query head `h`'s slice of the query vector and of
/// the attention output.
pub fn head_offset(c: &LlamaConfig, h: usize) -> (r: usize)
    requires
        c.valid(),
        h < c.n_heads,
    ensures
        r == spec_head_offset(*c, h as int),
        r + c.spec_head_size() <= c.dim,
{
    let hs = c.head_size();
    proof {
        lemma_shapes(*c);
        lemma_slot_inside(h as int, c.n_heads as int, hs as int, 0, hs as int);
    }
    h * hs
}

/// Returns the cache offset of the slice that query head `h` reads at
/// position `t`; that slice lies inside position `t`'s slot.
pub fn slice_offset(c: &LlamaConfig, t: usize, h: usize) -> (r: usize)
    requires
        cache_fits(*c),
        t < c.seq_len,
        h < c.n_heads,
    ensures
        r == spec_slice_offset(*c, t as int, h as int),
        spec_cache_offset(*c, t as int) <= r,
        r + c.spec_head_size() <= spec_cache_offset(*c, t as int) + c.spec_kv_dim(),
{
    let base = cache_offset(c, t);
    let k = kv_head(c, h);
    let hs = c.head_size();
    proof {
        lemma_shapes(*c);
        lemma_slot_inside(k as int, c.n_kv_heads as int, hs as int, 0, hs as int);
    }
    base + k * hs
}

/// Returns, in position order, the cache offsets of every slice that query
/// head `h` reads at step `pos`: one per position `0..=pos`, none later.
pub fn attention_span(c: &LlamaConfig, h: usize, pos: usize) -> (r: Vec<usize>)
    requires
        cache_fits(*c),
        pos < c.seq_len,
        h < c.n_heads,
    ensures
        r@.len() == pos + 1,
        forall|t: int| 0 <= t <= pos ==> #[trigger] r@[t] == spec_slice_offset(*c, t, h as int),
        forall|t: int| 0 <= t <= pos ==> #[trigger] r@[t] + c.spec_head_size() <= (pos + 1) * c.spec_kv_dim(),
{
    let mut r: Vec<usize> = Vec::with_capacity(pos + 1);
    let mut t: usize = 0;
    while t <= pos
        invariant
            cache_fits(*c),
            pos < c.seq_len,
            h < c.n_heads,
            t <= pos + 1,
            r@.len() == t,
            forall|j: int| 0 <= j < t ==> #[trigger] r@[j] == spec_slice_offset(*c, j, h as int),
            forall|j: int| 0 <= j < t ==> #[trigger] r@[j] + c.spec_head_size() <= (pos + 1) * c.spec_kv_dim(),
        decreases pos + 1 - t,
    {
        let o = slice_offset(c, t, h);
        proof {
            lemma_shapes(*c);
            assert((t + 1) * c.spec_kv_dim() <= (pos + 1) * c.spec_kv_dim()) by (nonlinear_arith)
                requires t + 1 <= pos + 1, c.spec_kv_dim() > 0;
            assert(spec_cache_offset(*c, t as int) + c.spec_kv_dim() == (t + 1) * c.spec_kv_dim()) by (nonlinear_arith);
        }
        r.push(o);
        t = t + 1;
    }
    r
}

/// Slot `i` of `n` slots of `s` entries, shifted by `a` and of width `w <= s`
/// at most, ends inside the `n * s` entries.
proof fn lemma_slot_inside(i: int, n: int, s: int, a: int, w: int)
    requires
        0 <= i < n,
        0 <= a,
        0 <= w,
        a + w <= s,
    ensures
        0 <= i * s,
        i * s + a + w <= n * s,
{
    assert(0 <= i * s && i * s + s <= n * s) by (nonlinear_arith)
        requires 0 <= i < n, 0 <= s;
}

/// Grouped-query mapping: query head `h` reads key/value head
/// `k = h / group_size`, a valid head, and the query heads that read `k` are
/// exactly `k * group_size .. (k + 1) * group_size`.
pub proof fn lemma_group_mapping(c: LlamaConfig, h: int)
    requires
        c.valid(),
        0 <= h < c.n_heads,
    ensures
        0 <= spec_kv_head(c, h) < c.n_kv_heads,
        spec_kv_head(c, h) * c.spec_group_size() <= h < (spec_kv_head(c, h) + 1) * c.spec_group_size(),
        forall|h2: int|
            0 <= h2 < c.n_heads ==> (spec_kv_head(c, h2) == spec_kv_head(c, h) <==>
                spec_kv_head(c, h) * c.spec_group_size() <= h2 < (spec_kv_head(c, h) + 1) * c.spec_group_size()),
{
    lemma_shapes(c);
    let g = c.spec_group_size();
    let k = spec_kv_head(c, h);
    vstd::arithmetic::div_mod::lemma_fundamental_div_mod(h, g);
    assert(0 <= k) by {
        vstd::arithmetic::div_mod::lemma_div_pos_is_pos(h, g);
    }
    assert(k < c.n_kv_heads) by (nonlinear_arith)
        requires k * g + h % g == h, 0 <= h % g, h < c.n_heads, g * c.n_kv_heads == c.n_heads, g > 0;
    assert forall|h2: int| 0 <= h2 < c.n_heads implies (spec_kv_head(c, h2) == k <==> k * g <= h2 < (k + 1) * g) by {
        vstd::arithmetic::div_mod::lemma_fundamental_div_mod(h2, g);
        let k2 = spec_kv_head(c, h2);
        if k * g <= h2 < (k + 1) * g {
            vstd::arithmetic::div_mod::lemma_div_is_ordered(k * g, h2, g);
            vstd::arithmetic::div_mod::lemma_div_multiples_vanish(k, g);
            assert(k2 >= k);
            assert(k2 <= k) by (nonlinear_arith)
                requires k2 * g + h2 % g == h2, 0 <= h2 % g, h2 < (k + 1) * g, g > 0;
        }
        if k2 == k {
            assert(k * g <= h2 < (k + 1) * g) by (nonlinear_arith)
                requires k * g + h2 % g == h2, 0 <= h2 % g < g;
        }
    }
}

/// Causality: every cache entry that query head `h` reads at step `p` (the
/// `head_size` entries from each slice offset of positions `0..=p`) belongs to
/// a position no later than `p`, so entries written at later positions never
/// reach the output of step `p`.
pub proof fn lemma_causal_reads(c: LlamaConfig, h: int, p: int, t: int, i: int)
    requires
        c.valid(),
        0 <= h < c.n_heads,
        0 <= t <= p,
        0 <= i < c.spec_head_size(),
    ensures
        (spec_slice_offset(c, t, h) + i) / c.spec_kv_dim() == t,
        (spec_slice_offset(c, t, h) + i) / c.spec_kv_dim() <= p,
{
    lemma_shapes(c);
    lemma_group_mapping(c, h);
    let kv = c.spec_kv_dim();
    let hs = c.spec_head_size();
    let k = spec_kv_head(c, h);
    lemma_slot_inside(k, c.n_kv_heads as int, hs, i, 1);
    assert(0 <= k * hs + i < kv);
    vstd::arithmetic::div_mod::lemma_fundamental_div_mod_converse(t * kv + k * hs + i, kv, t, k * hs + i);
}

/// Query heads write disjoint slices of the attention output, all inside
/// the first `dim` entries.
pub proof fn lemma_heads_disjoint(c: LlamaConfig, h1: int, h2: int)
    requires
        c.valid(),
        0 <= h1 < c.n_heads,
        0 <= h2 < c.n_heads,
        h1 != h2,
    ensures
        spec_head_offset(c, h1) + c.spec_head_size() <= spec_head_offset(c, h2)
            || spec_head_offset(c, h2) + c.spec_head_size() <= spec_head_offset(c, h1),
        spec_head_offset(c, h1) + c.spec_head_size() <= c.dim,
{
    lemma_shapes(c);
    let hs = c.spec_head_size();
    lemma_slot_inside(h1, c.n_heads as int, hs, 0, hs);
    if h1 < h2 {
        assert(h1 * hs + hs <= h2 * hs) by (nonlinear_arith)
            requires h1 < h2, hs > 0;
    } else {
        assert(h2 * hs + hs <= h1 * hs) by (nonlinear_arith)
            requires h2 < h1, hs > 0;
    }
}

/// Distinct positions own disjoint cache slots, so writing one position
/// never overwrites another.
pub proof fn lemma_slots_disjoint(c: LlamaConfig, p1: int, p2: int)
    requires
        c.valid(),
        0 <= p1 < p2,
    ensures
        spec_cache_offset(c, p1) + c.spec_kv_dim() <= spec_cache_offset(c, p2),
{
    lemma_shapes(c);
    let kv = c.spec_kv_dim();
    assert(p1 * kv + kv <= p2 * kv) by (nonlinear_arith)
        requires p1 < p2, kv > 0;
}

} // verus!
