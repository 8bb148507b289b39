//! Model hyperparameters and the shape quantities derived from them.

use vstd::prelude::*;

use crate::error::LlamaError;

verus! {

/// Number of bytes in the checkpoint header: seven little-endian 32-bit integers.
pub const HEADER_BYTES: usize = 28;

/// Transformer hyperparameters, in the order the checkpoint header stores them.
#[derive(Debug, Clone, Copy, PartialEq, Eq)]
pub struct LlamaConfig {
    /// Embedding dimension.
    pub dim: i32,
    /// Feed-forward inner dimension.
    pub hidden_dim: i32,
    /// Number of decoder layers.
    pub n_layers: i32,
    /// Number of query heads.
    pub n_heads: i32,
    /// Number of key/value heads.
    pub n_kv_heads: i32,
    /// Vocabulary size.
    pub vocab_size: i32,
    /// Maximum sequence length.
    pub seq_len: i32,
}

/// The unsigned value of four bytes in little-endian order.
pub open spec fn le_u32(b0: u8, b1: u8, b2: u8, b3: u8) -> int {
    b0 as int + 256 * (b1 as int) + 65536 * (b2 as int) + 16777216 * (b3 as int)
}

/// The two's-complement value of four bytes in little-endian order.
pub open spec fn le_i32(b0: u8, b1: u8, b2: u8, b3: u8) -> int {
    let u = le_u32(b0, b1, b2, b3);
    if u < 0x8000_0000 {
        u
    } else {
        u - 0x1_0000_0000
    }
}

/// The signed 32-bit integer stored little-endian at byte `off` of `b`.
pub open spec fn i32_at(b: Seq<u8>, off: int) -> int {
    le_i32(b[off], b[off + 1], b[off + 2], b[off + 3])
}

/// Relies on byteorder's `LittleEndian::read_i32`: the signed integer of the
/// first four bytes of its argument, least significant byte first.
#[verifier::external_body]
fn read_i32_le(b: &[u8], off: usize) -> (r: i32)
    requires
        off + 4 <= b@.len(),
    ensures
        r as int == i32_at(b@, off as int),
{
    <byteorder::LittleEndian as byteorder::ByteOrder>::read_i32(&b[off..off + 4])
}

impl LlamaConfig {
    /// The header values describe a model: every count is positive, the
    /// embedding splits evenly over the query heads, and the query heads split
    /// evenly over the key/value heads.
    pub open spec fn valid(&self) -> bool {
        &&& self.dim > 0
        &&& self.hidden_dim > 0
        &&& self.n_layers > 0
        &&& self.n_heads > 0
        &&& self.n_kv_heads > 0
        &&& self.vocab_size > 0
        &&& self.seq_len > 0
        &&& self.dim % self.n_heads == 0
        &&& self.n_heads % self.n_kv_heads == 0
    }

    /// Width of one key (or value) vector: `dim * n_kv_heads / n_heads`.
    pub open spec fn spec_kv_dim(&self) -> int {
        (self.dim as int * self.n_kv_heads as int) / (self.n_heads as int)
    }

    /// Width of one head: `dim / n_heads`.
    pub open spec fn spec_head_size(&self) -> int {
        (self.dim as int) / (self.n_heads as int)
    }

    /// Query heads per key/value head: `n_heads / n_kv_heads`.
    pub open spec fn spec_group_size(&self) -> int {
        (self.n_heads as int) / (self.n_kv_heads as int)
    }

    /// The header as it is stored in a checkpoint's first bytes.
    pub open spec fn from_bytes(b: Seq<u8>) -> LlamaConfig {
        LlamaConfig {
            dim: i32_at(b, 0) as i32,
            hidden_dim: i32_at(b, 4) as i32,
            n_layers: i32_at(b, 8) as i32,
            n_heads: i32_at(b, 12) as i32,
            n_kv_heads: i32_at(b, 16) as i32,
            vocab_size: i32_at(b, 20) as i32,
            seq_len: i32_at(b, 24) as i32,
        }
    }

    /// Returns the key/value dimension per head group.
    pub fn kv_dim(&self) -> (r: usize)
        requires
            self.valid(),
        ensures
            r as int == self.spec_kv_dim(),
            r as int == self.spec_head_size() * self.n_kv_heads,
            0 < r <= self.dim,
    {
        proof { lemma_shapes(*self); }
        ((self.dim / self.n_heads) * self.n_kv_heads) as usize
    }

    /// Returns the head size.
    pub fn head_size(&self) -> (r: usize)
        requires
            self.valid(),
        ensures
            r as int == self.spec_head_size(),
            0 < r <= self.dim,
    {
        proof { lemma_shapes(*self); }
        (self.dim / self.n_heads) as usize
    }

    /// Returns the number of heads per key/value group.
    pub fn group_size(&self) -> (r: usize)
        requires
            self.valid(),
        ensures
            r as int == self.spec_group_size(),
            0 < r <= self.n_heads,
    {
        proof { lemma_shapes(*self); }
        (self.n_heads / self.n_kv_heads) as usize
    }

    /// Checks the header values, naming the first rule they break.
    pub fn validate(&self) -> (r: Result<(), LlamaError>)
        ensures
            r is Ok <==> self.valid(),
            r is Err ==> r->Err_0 is InvalidModel,
    {
        if self.dim <= 0 || self.hidden_dim <= 0 || self.n_layers <= 0 || self.n_heads <= 0
            || self.n_kv_heads <= 0 || self.vocab_size <= 0 || self.seq_len <= 0 {
            return Err(LlamaError::InvalidModel("every header value must be positive".to_string()));
        }
        if self.dim % self.n_heads != 0 {
            return Err(LlamaError::InvalidModel("dim must be a multiple of n_heads".to_string()));
        }
        if self.n_heads % self.n_kv_heads != 0 {
            return Err(
                LlamaError::InvalidModel("n_heads must be a multiple of n_kv_heads".to_string()),
            );
        }
        Ok(())
    }

    /// Reads the seven header integers from the start of a checkpoint.
    /// The values are not checked here; see `validate`.
    pub fn read_header(bytes: &[u8]) -> (r: Result<LlamaConfig, LlamaError>)
        ensures
            r is Ok <==> bytes@.len() >= HEADER_BYTES,
            r is Ok ==> r->Ok_0 == LlamaConfig::from_bytes(bytes@),
            r is Err ==> r->Err_0 is InvalidModel,
    {
        if bytes.len() < HEADER_BYTES {
            return Err(LlamaError::InvalidModel("checkpoint header is truncated".to_string()));
        }
        Ok(LlamaConfig {
            dim: read_i32_le(bytes, 0),
            hidden_dim: read_i32_le(bytes, 4),
            n_layers: read_i32_le(bytes, 8),
            n_heads: read_i32_le(bytes, 12),
            n_kv_heads: read_i32_le(bytes, 16),
            vocab_size: read_i32_le(bytes, 20),
            seq_len: read_i32_le(bytes, 24),
        })
    }
}

/// On a valid configuration the derived widths are exact products:
/// `dim == head_size * n_heads`, `kv_dim == head_size * n_kv_heads`,
/// `n_heads == group_size * n_kv_heads`, and none of them is zero.
pub proof fn lemma_shapes(c: LlamaConfig)
    requires
        c.valid(),
    ensures
        c.spec_head_size() * c.n_heads == c.dim,
        c.spec_group_size() * c.n_kv_heads == c.n_heads,
        c.spec_kv_dim() == c.spec_head_size() * c.n_kv_heads,
        c.spec_head_size() * c.spec_group_size() * c.n_kv_heads == c.dim,
        0 < c.spec_head_size() <= c.dim,
        0 < c.spec_group_size() <= c.n_heads,
        0 < c.spec_kv_dim() <= c.dim,
{
    let d = c.dim as int;
    let h = c.n_heads as int;
    let k = c.n_kv_heads as int;
    let hs = d / h;
    let g = h / k;
    assert(hs * h == d) by {
        vstd::arithmetic::div_mod::lemma_fundamental_div_mod(d, h);
    }
    assert(g * k == h) by {
        vstd::arithmetic::div_mod::lemma_fundamental_div_mod(h, k);
    }
    assert(d * k == (hs * k) * h) by (nonlinear_arith)
        requires hs * h == d;
    assert((d * k) / h == hs * k) by {
        vstd::arithmetic::div_mod::lemma_div_multiples_vanish(hs * k, h);
    }
    assert(hs * g * k == d) by (nonlinear_arith)
        requires hs * h == d, g * k == h;
    assert(0 < hs <= d) by (nonlinear_arith)
        requires hs * h == d, h > 0, d > 0;
    assert(0 < g <= h) by (nonlinear_arith)
        requires g * k == h, h > 0, k > 0;
    assert(0 < hs * k <= d) by (nonlinear_arith)
        requires hs * g * k == d, hs > 0, k > 0, g > 0;
}

} // verus!
