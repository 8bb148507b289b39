use llama_rs::attention::attention_span;
use llama_rs::session::{Action, Generation, StopReason, BOS, EOS};
use llama_rs::weights::load_model;
use llama_rs::LlamaConfig;

#[test]
fn prompt_tokens_are_forced_then_sampled() {
    let mut g = Generation::new(vec![BOS, 10, 11], 10, 8);
    assert_eq!(g.next_action(), Action::Forward { token: BOS, pos: 0 });
    assert_eq!(g.forced_token(), Some(10));
    g.advance(10);
    assert_eq!(g.next_action(), Action::Forward { token: 10, pos: 1 });
    assert_eq!(g.forced_token(), Some(11));
    g.advance(11);
    assert_eq!(g.next_action(), Action::Forward { token: 11, pos: 2 });
    assert_eq!(g.forced_token(), None);
    g.advance(42);
    assert_eq!(g.next_action(), Action::Forward { token: 42, pos: 3 });
}

#[test]
fn end_of_sequence_stops() {
    let mut g = Generation::new(vec![BOS], 10, 8);
    g.advance(EOS);
    assert_eq!(g.next_action(), Action::Stop(StopReason::EndOfSequence));
}

#[test]
fn step_budget_stops() {
    let mut g = Generation::new(vec![BOS], 2, 8);
    g.advance(5);
    g.advance(6);
    assert_eq!(g.next_action(), Action::Stop(StopReason::StepBudget));
    let g = Generation::new(vec![BOS], 0, 8);
    assert_eq!(g.next_action(), Action::Stop(StopReason::StepBudget));
}

#[test]
fn full_context_stops_before_overflow() {
    let mut g = Generation::new(vec![BOS], 100, 3);
    let mut positions = Vec::new();
    while let Action::Forward { pos, .. } = g.next_action() {
        positions.push(pos);
        g.advance(7);
    }
    assert_eq!(positions, vec![0, 1, 2]);
    assert_eq!(g.next_action(), Action::Stop(StopReason::ContextFull));
}

#[test]
fn smoke_small_checkpoint_positions() {
    let c = LlamaConfig { dim: 8, hidden_dim: 16, n_layers: 1, n_heads: 2, n_kv_heads: 1, vocab_size: 16, seq_len: 4 };
    let mut b = Vec::new();
    for v in [c.dim, c.hidden_dim, c.n_layers, c.n_heads, c.n_kv_heads, c.vocab_size, c.seq_len] {
        b.extend_from_slice(&v.to_le_bytes());
    }
    b.extend_from_slice(&vec![0u8; 728 * 4]);
    let (cfg, w) = load_model(&b).unwrap();
    assert_eq!(w.embed_tokens.len() / cfg.dim as usize, 16);
    let mut g = Generation::new(vec![BOS], 100, cfg.seq_len as usize);
    let mut steps = 0;
    while let Action::Forward { pos, .. } = g.next_action() {
        for h in 0..2 {
            let span = attention_span(&cfg, h, pos);
            assert_eq!(span.len(), pos + 1);
            assert!(span.iter().all(|&o| o + cfg.head_size() <= (pos + 1) * cfg.kv_dim()));
        }
        g.advance(3);
        steps += 1;
    }
    assert_eq!(steps, 4);
}
