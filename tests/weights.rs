use llama_rs::weights::load_model;
use llama_rs::{LlamaConfig, LlamaError, LlamaWeights};

/// A checkpoint whose weight word `k` holds the value `k`, except the first
/// embedding entry, which holds the float 0.5.
fn checkpoint(c: &LlamaConfig, n_words: usize) -> Vec<u8> {
    let mut b = Vec::new();
    for v in [c.dim, c.hidden_dim, c.n_layers, c.n_heads, c.n_kv_heads, c.vocab_size, c.seq_len] {
        b.extend_from_slice(&v.to_le_bytes());
    }
    for k in 0..n_words {
        let w: u32 = if k == 0 { 0.5f32.to_bits() } else { k as u32 };
        b.extend_from_slice(&w.to_le_bytes());
    }
    b
}

fn small() -> LlamaConfig {
    LlamaConfig { dim: 8, hidden_dim: 16, n_layers: 1, n_heads: 2, n_kv_heads: 1, vocab_size: 16, seq_len: 4 }
}

fn two_layers() -> LlamaConfig {
    LlamaConfig { dim: 4, hidden_dim: 8, n_layers: 2, n_heads: 2, n_kv_heads: 2, vocab_size: 3, seq_len: 2 }
}

// small: embed 128, att 8, wq 64, wk 32, wv 32, wo 64, ffn 8, gate 128, down 128, up 128, norm 8
const SMALL_WORDS: usize = 728;
// two_layers: embed 12, att 8, wq 32, wk 32, wv 32, wo 32, ffn 8, gate 64, down 64, up 64, norm 4
// (region starts: att 12, wq 20, wk 52, wv 84, wo 116, ffn 148, gate 156, down 220, up 284, norm 348)
const TWO_LAYER_WORDS: usize = 352;

#[test]
fn load_small_checkpoint() {
    let b = checkpoint(&small(), SMALL_WORDS);
    let (c, w) = load_model(&b).unwrap();
    assert_eq!(c, small());
    assert_eq!(w.embed_tokens.len(), 128);
    assert_eq!(f32::from_bits(w.embed_tokens[0]), 0.5);
    assert_eq!(w.embed_tokens[127], 127);
    assert_eq!(w.layers.len(), 1);
    let l = &w.layers[0];
    assert_eq!((l.attn_norm.len(), l.attn_norm[0]), (8, 128));
    assert_eq!((l.q_proj.len(), l.q_proj[0]), (64, 136));
    assert_eq!((l.k_proj.len(), l.k_proj[0]), (32, 200));
    assert_eq!((l.v_proj.len(), l.v_proj[0]), (32, 232));
    assert_eq!((l.o_proj.len(), l.o_proj[0]), (64, 264));
    assert_eq!((l.ffn_norm.len(), l.ffn_norm[0]), (8, 328));
    assert_eq!((l.gate_proj.len(), l.gate_proj[0]), (128, 336));
    assert_eq!((l.down_proj.len(), l.down_proj[0]), (128, 464));
    assert_eq!((l.up_proj.len(), l.up_proj[0]), (128, 592));
    assert_eq!(w.norm, (720..728).collect::<Vec<u32>>());
}

#[test]
fn load_slices_each_layer() {
    let b = checkpoint(&two_layers(), TWO_LAYER_WORDS);
    let (_, w) = load_model(&b).unwrap();
    assert_eq!(w.layers.len(), 2);
    assert_eq!(w.layers[0].attn_norm, vec![12, 13, 14, 15]);
    assert_eq!(w.layers[1].attn_norm, vec![16, 17, 18, 19]);
    assert_eq!(w.layers[0].q_proj[0], 20);
    assert_eq!(w.layers[1].q_proj[0], 36);
    assert_eq!(w.layers[1].k_proj[0], 68);
    assert_eq!(w.layers[1].v_proj[15], 84 + 16 + 15);
    assert_eq!(w.layers[1].up_proj.len(), 32);
    assert_eq!(w.layers[1].up_proj[31], 284 + 32 + 31);
    assert_eq!(w.norm, vec![348, 349, 350, 351]);
}

#[test]
fn load_ignores_trailing_bytes() {
    let mut b = checkpoint(&small(), SMALL_WORDS);
    b.extend_from_slice(&[9, 9, 9]);
    assert!(load_model(&b).is_ok());
}

#[test]
fn truncated_checkpoint_is_invalid_model() {
    let b = checkpoint(&small(), SMALL_WORDS);
    for cut in [0, 27, 28, 29, 100, 28 + 4 * 500 + 2, b.len() - 1] {
        assert!(
            matches!(load_model(&b[..cut]), Err(LlamaError::InvalidModel(_))),
            "cut at {}",
            cut
        );
    }
}

#[test]
fn zero_heads_is_invalid_model() {
    let mut c = small();
    c.n_heads = 0;
    let b = checkpoint(&c, SMALL_WORDS);
    assert!(matches!(load_model(&b), Err(LlamaError::InvalidModel(_))));
}

#[test]
fn huge_header_is_invalid_model() {
    let c = LlamaConfig {
        dim: i32::MAX,
        hidden_dim: i32::MAX,
        n_layers: i32::MAX,
        n_heads: 1,
        n_kv_heads: 1,
        vocab_size: i32::MAX,
        seq_len: 1,
    };
    let b = checkpoint(&c, 16);
    assert!(matches!(load_model(&b), Err(LlamaError::InvalidModel(_))));
}

#[test]
fn load_weight_stream_alone() {
    let b = checkpoint(&small(), SMALL_WORDS);
    let w = LlamaWeights::load(&b[28..], &small()).unwrap();
    assert_eq!(w.layers[0].q_proj[0], 136);
    assert!(matches!(LlamaWeights::load(&b[28..b.len() - 4], &small()), Err(LlamaError::InvalidModel(_))));
}
