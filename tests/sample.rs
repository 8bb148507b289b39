use llama_rs::sample::{argmax, nucleus_order, rank};

fn bits(v: &[f32]) -> Vec<u32> {
    v.iter().map(|x| x.to_bits()).collect()
}

#[test]
fn greedy_picks_largest_logit() {
    assert_eq!(argmax(&bits(&[0.1, 5.0, 0.3])), 1);
}

#[test]
fn greedy_first_of_ties() {
    assert_eq!(argmax(&bits(&[1.0, 3.0, 3.0, 2.0])), 1);
    assert_eq!(argmax(&bits(&[0.0, -0.0])), 0);
    assert_eq!(argmax(&bits(&[-0.0, 0.0])), 0);
}

#[test]
fn greedy_negative_logits() {
    assert_eq!(argmax(&bits(&[-3.0, -1.5, -2.0])), 1);
    assert_eq!(argmax(&bits(&[-1.0e30, f32::NEG_INFINITY, -1.0e-30])), 2);
    assert_eq!(argmax(&bits(&[7.0])), 0);
}

#[test]
fn rank_follows_float_order() {
    let vals = [f32::NEG_INFINITY, -2.5, -1.0e-30, 0.0, 1.0e-30, 1.0, 3.5, f32::INFINITY];
    for i in 0..vals.len() {
        for j in 0..vals.len() {
            assert_eq!(rank(vals[i].to_bits()) < rank(vals[j].to_bits()), vals[i] < vals[j]);
        }
    }
    assert_eq!(rank((-0.0f32).to_bits()), rank(0.0f32.to_bits()));
}

#[test]
fn nucleus_order_descending() {
    let p = bits(&[0.1, 0.5, 0.15, 0.25]);
    assert_eq!(nucleus_order(&p), vec![1, 3, 2, 0]);
}

#[test]
fn nucleus_order_ties_by_index() {
    let p = bits(&[0.2, 0.3, 0.2, 0.3, 0.0]);
    assert_eq!(nucleus_order(&p), vec![1, 3, 0, 2, 4]);
    assert_eq!(nucleus_order(&[]), Vec::<usize>::new());
}
