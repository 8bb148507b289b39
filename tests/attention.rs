use llama_rs::attention::{attention_span, cache_len, cache_offset, head_offset, kv_head, slice_offset};
use llama_rs::LlamaConfig;

fn gqa() -> LlamaConfig {
    LlamaConfig { dim: 64, hidden_dim: 128, n_layers: 2, n_heads: 8, n_kv_heads: 2, vocab_size: 32, seq_len: 16 }
}

#[test]
fn grouped_query_heads_share_kv_heads() {
    let c = gqa();
    for h in 0..4 {
        assert_eq!(kv_head(&c, h), 0);
    }
    for h in 4..8 {
        assert_eq!(kv_head(&c, h), 1);
    }
}

#[test]
fn cache_addressing() {
    let c = gqa();
    // kv_dim 16, head_size 8
    assert_eq!(cache_len(&c), Some(256));
    assert_eq!(cache_offset(&c, 0), 0);
    assert_eq!(cache_offset(&c, 3), 48);
    assert_eq!(slice_offset(&c, 3, 0), 48);
    assert_eq!(slice_offset(&c, 3, 5), 56);
    assert_eq!(head_offset(&c, 5), 40);
}

#[test]
fn cache_len_rejects_invalid_config() {
    let mut c = gqa();
    c.n_kv_heads = 3;
    assert_eq!(cache_len(&c), None);
}

#[test]
fn span_reads_only_positions_up_to_current() {
    let c = gqa();
    let s = attention_span(&c, 6, 2);
    assert_eq!(s, vec![8, 24, 40]);
    for &o in &s {
        assert!(o + 8 <= 3 * 16);
    }
    assert_eq!(attention_span(&c, 0, 0), vec![0]);
}

#[test]
fn span_at_last_position() {
    let c = gqa();
    let s = attention_span(&c, 3, 15);
    assert_eq!(s.len(), 16);
    assert_eq!(s[15], 15 * 16);
}
