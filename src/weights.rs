//! Checkpoint weight layout and loading.
//!
//! After the header, a checkpoint is a flat run of little-endian 32-bit
//! floats in a fixed region order. The loader checks that the stream holds
//! every region the header implies and slices each region into per-layer
//! records. Each weight is kept as its raw IEEE-754 bit pattern.

use vstd::prelude::*;

use crate::config::{le_u32, LlamaConfig, HEADER_BYTES};
use crate::error::LlamaError;

verus! {

/// The 32-bit word stored little-endian at byte `off` of `b`.
pub open spec fn word_at(b: Seq<u8>, off: int) -> u32 {
    le_u32(b[off], b[off + 1], b[off + 2], b[off + 3]) as u32
}

/// The `n` consecutive words that start at byte `off` of `b`.
pub open spec fn words(b: Seq<u8>, off: int, n: int) -> Seq<u32> {
    Seq::new(n as nat, |k: int| word_at(b, off + 4 * k))
}

/// Words in one layer's slice of the norm regions: `dim`.
pub open spec fn norm_len(c: LlamaConfig) -> int {
    c.dim as int
}

/// Words in one layer's query or output projection: `dim * dim`.
pub open spec fn square_len(c: LlamaConfig) -> int {
    c.dim as int * c.dim as int
}

/// Words in one layer's key or value projection: `kv_dim * dim`.
pub open spec fn kv_proj_len(c: LlamaConfig) -> int {
    c.spec_kv_dim() * c.dim as int
}

/// Words in one layer's gate, down or up projection: `hidden_dim * dim`.
pub open spec fn ffn_len(c: LlamaConfig) -> int {
    c.hidden_dim as int * c.dim as int
}

/// Words in the embedding matrix: `vocab_size * dim`.
pub open spec fn embed_len(c: LlamaConfig) -> int {
    c.vocab_size as int * c.dim as int
}

/// Word index at which the attention-norm region starts.
pub open spec fn att_norm_base(c: LlamaConfig) -> int {
    embed_len(c)
}

/// Word index at which the query-projection region starts.
pub open spec fn wq_base(c: LlamaConfig) -> int {
    att_norm_base(c) + c.n_layers * norm_len(c)
}

/// Word index at which the key-projection region starts.
pub open spec fn wk_base(c: LlamaConfig) -> int {
    wq_base(c) + c.n_layers * square_len(c)
}

/// Word index at which the value-projection region starts.
pub open spec fn wv_base(c: LlamaConfig) -> int {
    wk_base(c) + c.n_layers * kv_proj_len(c)
}

/// Word index at which the output-projection region starts.
pub open spec fn wo_base(c: LlamaConfig) -> int {
    wv_base(c) + c.n_layers * kv_proj_len(c)
}

/// Word index at which the feed-forward-norm region starts.
pub open spec fn ffn_norm_base(c: LlamaConfig) -> int {
    wo_base(c) + c.n_layers * square_len(c)
}

/// Word index at which the `gate_proj` matrices start.
pub open spec fn gate_base(c: LlamaConfig) -> int {
    ffn_norm_base(c) + c.n_layers * norm_len(c)
}

/// Word index at which the down-projection region starts.
pub open spec fn down_base(c: LlamaConfig) -> int {
    gate_base(c) + c.n_layers * ffn_len(c)
}

/// Word index at which the up-projection region starts.
pub open spec fn up_base(c: LlamaConfig) -> int {
    down_base(c) + c.n_layers * ffn_len(c)
}

/// Word index at which the final norm vector starts.
pub open spec fn final_norm_base(c: LlamaConfig) -> int {
    up_base(c) + c.n_layers * ffn_len(c)
}

/// Number of words of weight data that the header implies.
pub open spec fn total_words(c: LlamaConfig) -> int {
    final_norm_base(c) + norm_len(c)
}

/// Relies on byteorder's `LittleEndian::read_u32`: the unsigned integer of
/// the first four bytes of its argument, least significant byte first.
#[verifier::external_body]
fn read_u32_le(b: &[u8], off: usize) -> (r: u32)
    requires
        off + 4 <= b@.len(),
    ensures
        r == word_at(b@, off as int),
{
    <byteorder::LittleEndian as byteorder::ByteOrder>::read_u32(&b[off..off + 4])
}

/// Reads `n` words starting at byte `off`.
fn read_words(b: &[u8], off: usize, n: usize) -> (r: Vec<u32>)
    requires
        off + 4 * n <= b@.len(),
    ensures
        r@ == words(b@, off as int, n as int),
{
    let mut r: Vec<u32> = Vec::with_capacity(n);
    let blen: usize = b.len();
    let mut i: usize = 0;
    while i < n
        invariant
            blen == b@.len(),
            i <= n,
            off + 4 * n <= b@.len(),
            r@ == words(b@, off as int, i as int),
        decreases n - i,
    {
        let w = read_u32_le(b, off + 4 * i);
        r.push(w);
        i = i + 1;
        assert(r@ =~= words(b@, off as int, i as int));
    }
    r
}

/// Weights of one decoder layer, as raw single-precision bit patterns.
/// Matrices are row-major with shape `[out_dim, in_dim]`.
#[derive(Debug, Clone)]
pub struct LlamaLayerWeights {
    /// Attention-input norm, `dim` words.
    pub attn_norm: Vec<u32>,
    /// Query projection, `[dim, dim]`.
    pub q_proj: Vec<u32>,
    /// Key projection, `[kv_dim, dim]`.
    pub k_proj: Vec<u32>,
    /// Value projection, `[kv_dim, dim]`.
    pub v_proj: Vec<u32>,
    /// Output projection, `[dim, dim]`.
    pub o_proj: Vec<u32>,
    /// Feed-forward-input norm, `dim` words.
    pub ffn_norm: Vec<u32>,
    /// Gate projection, `[hidden_dim, dim]`.
    pub gate_proj: Vec<u32>,
    /// Up projection, `[hidden_dim, dim]`.
    pub up_proj: Vec<u32>,
    /// Down projection, `[dim, hidden_dim]`.
    pub down_proj: Vec<u32>,
}

/// All model parameters, as raw single-precision bit patterns.
#[derive(Debug, Clone)]
pub struct LlamaWeights {
    /// Token embeddings, `[vocab_size, dim]`; also the output head.
    pub embed_tokens: Vec<u32>,
    /// Decoder layers, in order.
    pub layers: Vec<LlamaLayerWeights>,
    /// Final norm, `dim` words.
    pub norm: Vec<u32>,
}

impl LlamaLayerWeights {
    /// Each field is layer `l`'s slice of its region, in a weight stream
    /// that starts at byte `origin` of `b`.
    pub open spec fn sliced_from(&self, b: Seq<u8>, origin: int, c: LlamaConfig, l: int) -> bool {
        let at = |base: int, len: int| words(b, origin + 4 * (base + l * len), len);
        &&& self.attn_norm@ == at(att_norm_base(c), norm_len(c))
        &&& self.q_proj@ == at(wq_base(c), square_len(c))
        &&& self.k_proj@ == at(wk_base(c), kv_proj_len(c))
        &&& self.v_proj@ == at(wv_base(c), kv_proj_len(c))
        &&& self.o_proj@ == at(wo_base(c), square_len(c))
        &&& self.ffn_norm@ == at(ffn_norm_base(c), norm_len(c))
        &&& self.gate_proj@ == at(gate_base(c), ffn_len(c))
        &&& self.down_proj@ == at(down_base(c), ffn_len(c))
        &&& self.up_proj@ == at(up_base(c), ffn_len(c))
    }
}

impl LlamaWeights {
    /// Every tensor is its slice of a weight stream that starts at byte
    /// `origin` of `b` and is laid out for `c`.
    pub open spec fn sliced_from(&self, b: Seq<u8>, origin: int, c: LlamaConfig) -> bool {
        &&& self.embed_tokens@ == words(b, origin, embed_len(c))
        &&& self.layers@.len() == c.n_layers
        &&& forall|l: int| 0 <= l < c.n_layers ==> #[trigger] self.layers@[l].sliced_from(b, origin, c, l)
        &&& self.norm@ == words(b, origin + 4 * final_norm_base(c), norm_len(c))
    }

    /// Loads the weights for `config` from a weight stream (the bytes that
    /// follow the header). Fails with `InvalidModel` when the header values
    /// are nonsensical or the stream is shorter than the layout demands.
    pub fn load(bytes: &[u8], config: &LlamaConfig) -> (r: Result<LlamaWeights, LlamaError>)
        ensures
            r is Ok <==> config.valid() && 4 * total_words(*config) <= bytes@.len(),
            r is Ok ==> r->Ok_0.sliced_from(bytes@, 0, *config),
            r is Err ==> r->Err_0 is InvalidModel,
    {
        load_at(bytes, 0, config)
    }
}

/// `b` holds a whole checkpoint: a valid header and every weight that it
/// implies (trailing bytes are ignored).
pub open spec fn checkpoint_complete(b: Seq<u8>) -> bool {
    &&& b.len() >= HEADER_BYTES
    &&& LlamaConfig::from_bytes(b).valid()
    &&& HEADER_BYTES + 4 * total_words(LlamaConfig::from_bytes(b)) <= b.len()
}

/// A checkpoint cut anywhere before the end of its last weight array is not
/// complete, so `load_model` rejects it with `InvalidModel`.
pub proof fn lemma_truncated_rejected(b: Seq<u8>, cut: int)
    requires
        b.len() >= HEADER_BYTES,
        0 <= cut < HEADER_BYTES + 4 * total_words(LlamaConfig::from_bytes(b)),
        cut <= b.len(),
    ensures
        !checkpoint_complete(b.subrange(0, cut)),
{
    let p = b.subrange(0, cut);
    if cut >= HEADER_BYTES {
        assert(LlamaConfig::from_bytes(p) == LlamaConfig::from_bytes(b));
    }
}

/// Loads a whole checkpoint: the header, then the weights it describes.
/// Fails with `InvalidModel` on a truncated or nonsensical checkpoint.
pub fn load_model(bytes: &[u8]) -> (r: Result<(LlamaConfig, LlamaWeights), LlamaError>)
    ensures
        r is Ok <==> checkpoint_complete(bytes@),
        r is Ok ==> r->Ok_0.0 == LlamaConfig::from_bytes(bytes@)
            && r->Ok_0.1.sliced_from(bytes@, HEADER_BYTES as int, r->Ok_0.0),
        r is Err ==> r->Err_0 is InvalidModel,
{
    let config = LlamaConfig::read_header(bytes)?;
    let weights = load_at(bytes, HEADER_BYTES, &config)?;
    Ok((config, weights))
}

/// Bounds that keep the layout arithmetic within 128 bits.
proof fn lemma_product_bounds(x: int, y: int, z: int)
    requires
        0 <= x < 0x8000_0000,
        0 <= y < 0x8000_0000,
        0 <= z < 0x8000_0000,
    ensures
        0 <= x * y < 0x4000_0000_0000_0000,
        0 <= x * y * z < 0x2_0000_0000_0000_0000_0000_0000,
{
    assert(0 <= x * y < 0x4000_0000_0000_0000) by (nonlinear_arith)
        requires 0 <= x < 0x8000_0000, 0 <= y < 0x8000_0000;
    let p = x * y;
    assert(0 <= p * z < 0x2_0000_0000_0000_0000_0000_0000) by (nonlinear_arith)
        requires 0 <= p < 0x4000_0000_0000_0000, 0 <= z < 0x8000_0000;
}

/// Layer `l`'s slot of a region with `n` layers of `s` words each ends
/// inside the region.
proof fn lemma_slot(l: int, n: int, s: int)
    requires
        0 <= l < n,
        0 <= s,
    ensures
        0 <= l * s,
        l * s + s <= n * s,
{
    assert(0 <= l * s && l * s + s <= n * s) by (nonlinear_arith)
        requires 0 <= l < n, 0 <= s;
}

/// A positive count of `s`-word slots spans at least one slot.
proof fn lemma_le_mul(n: int, s: int)
    requires
        1 <= n,
        0 <= s,
    ensures
        s <= n * s,
{
    assert(s <= n * s) by (nonlinear_arith)
        requires 1 <= n, 0 <= s;
}

/// Loads the weights of a stream that starts at byte `origin` of `bytes`.
fn load_at(bytes: &[u8], origin: usize, config: &LlamaConfig) -> (r: Result<LlamaWeights, LlamaError>)
    requires
        origin <= bytes@.len(),
    ensures
        r is Ok <==> config.valid() && origin + 4 * total_words(*config) <= bytes@.len(),
        r is Ok ==> r->Ok_0.sliced_from(bytes@, origin as int, *config),
        r is Err ==> r->Err_0 is InvalidModel,
{
    config.validate()?;
    let c = *config;
    proof { crate::config::lemma_shapes(c); }
    let kv: usize = c.kv_dim();
    let d = c.dim as u128;
    let h = c.hidden_dim as u128;
    let n = c.n_layers as u128;
    let v = c.vocab_size as u128;
    let kv128 = kv as u128;
    proof {
        lemma_product_bounds(d as int, d as int, n as int);
        lemma_product_bounds(kv as int, d as int, n as int);
        lemma_product_bounds(h as int, d as int, n as int);
        lemma_product_bounds(v as int, d as int, 1);
        lemma_product_bounds(n as int, d as int, 1);
        assert(n * d == d * n) by (nonlinear_arith);
        assert(n * (d * d) == d * d * n) by (nonlinear_arith);
        assert(n * (kv128 * d) == kv128 * d * n) by (nonlinear_arith);
        assert(n * (h * d) == h * d * n) by (nonlinear_arith);
    }
    let embed_n: u128 = v * d;
    let att_b: u128 = embed_n;
    let wq_b: u128 = att_b + n * d;
    let wk_b: u128 = wq_b + n * (d * d);
    let wv_b: u128 = wk_b + n * (kv128 * d);
    let wo_b: u128 = wv_b + n * (kv128 * d);
    let ffn_b: u128 = wo_b + n * (d * d);
    let gate_b: u128 = ffn_b + n * d;
    let down_b: u128 = gate_b + n * (h * d);
    let up_b: u128 = down_b + n * (h * d);
    let norm_b: u128 = up_b + n * (h * d);
    let total: u128 = norm_b + d;
    assert(total == total_words(c));
    if (bytes.len() as u128) < origin as u128 + 4 * total {
        return Err(LlamaError::InvalidModel("checkpoint is shorter than its header implies".to_string()));
    }
    let blen: usize = bytes.len();
    proof {
        lemma_le_mul(n as int, d as int);
        lemma_le_mul(n as int, (d * d) as int);
        lemma_le_mul(n as int, (kv128 * d) as int);
        lemma_le_mul(n as int, (h * d) as int);
    }
    let du = c.dim as usize;
    let nu = c.n_layers as usize;
    let sq = (d * d) as usize;
    let kvp = (kv128 * d) as usize;
    let ff = (h * d) as usize;
    let att_u = att_b as usize;
    let wq_u = wq_b as usize;
    let wk_u = wk_b as usize;
    let wv_u = wv_b as usize;
    let wo_u = wo_b as usize;
    let ffn_u = ffn_b as usize;
    let gate_u = gate_b as usize;
    let down_u = down_b as usize;
    let up_u = up_b as usize;
    let norm_u = norm_b as usize;
    let embed_tokens = read_words(bytes, origin, embed_n as usize);
    let norm = read_words(bytes, origin + 4 * norm_u, du);
    let mut layers: Vec<LlamaLayerWeights> = Vec::with_capacity(nu);
    let mut l: usize = 0;
    while l < nu
        invariant
            l <= nu,
            nu == c.n_layers,
            du == c.dim,
            sq == square_len(c),
            kvp == kv_proj_len(c),
            ff == ffn_len(c),
            c == *config,
            c.valid(),
            att_u == att_norm_base(c),
            wq_u == wq_base(c),
            wk_u == wk_base(c),
            wv_u == wv_base(c),
            wo_u == wo_base(c),
            ffn_u == ffn_norm_base(c),
            gate_u == gate_base(c),
            down_u == down_base(c),
            up_u == up_base(c),
            norm_u == final_norm_base(c),
            origin + 4 * total_words(c) <= bytes@.len(),
            blen == bytes@.len(),
            layers@.len() == l,
            forall|j: int| 0 <= j < l ==> #[trigger] layers@[j].sliced_from(bytes@, origin as int, c, j),
        decreases nu - l,
    {
        proof {
            lemma_slot(l as int, nu as int, du as int);
            lemma_slot(l as int, nu as int, sq as int);
            lemma_slot(l as int, nu as int, kvp as int);
            lemma_slot(l as int, nu as int, ff as int);
        }
        let attn_norm = read_words(bytes, origin + 4 * (att_u + l * du), du);
        let q_proj = read_words(bytes, origin + 4 * (wq_u + l * sq), sq);
        let k_proj = read_words(bytes, origin + 4 * (wk_u + l * kvp), kvp);
        let v_proj = read_words(bytes, origin + 4 * (wv_u + l * kvp), kvp);
        let o_proj = read_words(bytes, origin + 4 * (wo_u + l * sq), sq);
        let ffn_norm = read_words(bytes, origin + 4 * (ffn_u + l * du), du);
        let gate_proj = read_words(bytes, origin + 4 * (gate_u + l * ff), ff);
        let down_proj = read_words(bytes, origin + 4 * (down_u + l * ff), ff);
        let up_proj = read_words(bytes, origin + 4 * (up_u + l * ff), ff);
        let layer = LlamaLayerWeights {
            attn_norm,
            q_proj,
            k_proj,
            v_proj,
            o_proj,
            ffn_norm,
            gate_proj,
            up_proj,
            down_proj,
        };
        assert(layer.sliced_from(bytes@, origin as int, c, l as int));
        layers.push(layer);
        l = l + 1;
        assert(forall|j: int| 0 <= j < l ==> #[trigger] layers@[j].sliced_from(bytes@, origin as int, c, j));
    }
    Ok(LlamaWeights { embed_tokens, layers, norm })
}

} // verus!
