use gpt_core::dataset::GPTDatasetV1;
use gpt_core::error::GenerateError;
use gpt_core::error::SamplingError;
use gpt_core::generate::Generator;
use gpt_core::sampling::argmax;
use gpt_core::sampling::next_token;
use gpt_core::sampling::check_sampling_params;
use gpt_core::sampling::rank_of;
use gpt_core::sampling::select_kept;
use gpt_core::sampling::top_k_mask;

/// Map a double to an unsigned key whose unsigned order is the numeric
/// order: flip all bits of negatives, flip only the sign bit of
/// non-negatives.
fn order_key(x: f64) -> u64 {
    let bits = x.to_bits();
    if bits >> 63 == 1 {
        !bits
    } else {
        bits | 0x8000_0000_0000_0000
    }
}

#[test]
fn sampling_params_accept_positive_finite_temperature() {
    assert!(check_sampling_params(1.0f64.to_bits(), 5, 100).is_ok());
    assert!(check_sampling_params(0.7f64.to_bits(), 1, 1).is_ok());
}

#[test]
fn sampling_params_reject_bad_temperature() {
    for t in [0.0f64, -1.0, f64::NEG_INFINITY, f64::INFINITY, f64::NAN] {
        assert_eq!(
            check_sampling_params(t.to_bits(), 5, 100).unwrap_err(),
            SamplingError::TemperatureNotPositive,
            "temperature {:?}",
            t
        );
    }
}

#[test]
fn sampling_params_reject_bad_top_k() {
    assert_eq!(
        check_sampling_params(1.0f64.to_bits(), 0, 100).unwrap_err(),
        SamplingError::TopKZero
    );
    assert_eq!(
        check_sampling_params(1.0f64.to_bits(), 101, 100).unwrap_err(),
        SamplingError::TopKTooLarge { top_k: 101, vocab_size: 100 }
    );
}

#[test]
fn ranks_break_ties_toward_earlier_index() {
    let scores: Vec<u64> = vec![5, 9, 9, 3];
    assert_eq!(rank_of(&scores, 1), 0);
    assert_eq!(rank_of(&scores, 2), 1);
    assert_eq!(rank_of(&scores, 0), 2);
    assert_eq!(rank_of(&scores, 3), 3);
}

#[test]
fn top_k_keeps_the_k_best_ranked() {
    let scores: Vec<u64> = vec![5, 9, 9, 3];
    let mask = top_k_mask(&scores, 2).unwrap();
    assert_eq!(mask, vec![false, true, true, false]);
    let mask = top_k_mask(&scores, 4).unwrap();
    assert_eq!(mask, vec![true, true, true, true]);
}

#[test]
fn top_k_rejects_zero_and_oversized_k() {
    let scores: Vec<u64> = vec![5, 9, 9, 3];
    assert_eq!(top_k_mask(&scores, 0).unwrap_err(), SamplingError::TopKZero);
    assert_eq!(
        top_k_mask(&scores, 5).unwrap_err(),
        SamplingError::TopKTooLarge { top_k: 5, vocab_size: 4 }
    );
}

#[test]
fn top_one_is_greedy_argmax_whatever_the_draw() {
    // With k = 1 exactly one candidate remains, so any draw selects the
    // arg-max index: generation is deterministic greedy decoding.
    let scores: Vec<u64> = vec![5, 9, 9, 3];
    let mask = top_k_mask(&scores, 1).unwrap();
    assert_eq!(mask, vec![false, true, false, false]);
    assert_eq!(argmax(&scores), 1);
    assert_eq!(select_kept(&mask, 0), Some(1));
    assert_eq!(select_kept(&mask, 1), None);
}

#[test]
fn next_token_selects_among_the_kept_candidates() {
    let scores: Vec<u64> = vec![5, 9, 9, 3];
    // k = 1: the only admissible draw selects the arg-max, any other
    // draw is rejected.
    assert_eq!(next_token(&scores, 1, 0), Ok(1));
    assert_eq!(
        next_token(&scores, 1, 1),
        Err(SamplingError::DrawOutOfRange { draw: 1, kept: 1 })
    );
    // k = 2 keeps indices 1 and 2, in index order.
    assert_eq!(next_token(&scores, 2, 0), Ok(1));
    assert_eq!(next_token(&scores, 2, 1), Ok(2));
    assert_eq!(next_token(&scores, 0, 0), Err(SamplingError::TopKZero));
    assert_eq!(
        next_token(&scores, 5, 0),
        Err(SamplingError::TopKTooLarge { top_k: 5, vocab_size: 4 })
    );
}

#[test]
fn select_kept_walks_candidates_in_index_order() {
    let mask = vec![true, false, true, true];
    assert_eq!(select_kept(&mask, 0), Some(0));
    assert_eq!(select_kept(&mask, 1), Some(2));
    assert_eq!(select_kept(&mask, 2), Some(3));
    assert_eq!(select_kept(&mask, 3), None);
}

#[test]
fn order_keys_order_doubles_numerically() {
    let logits = [-3.25f64, 2.5, 0.0, -0.5, 2.25];
    let keys: Vec<u64> = logits.iter().map(|x| order_key(*x)).collect();
    assert_eq!(argmax(&keys), 1);
    let mask = top_k_mask(&keys, 2).unwrap();
    assert_eq!(mask, vec![false, true, false, false, true]);
}

#[test]
fn generation_appends_exactly_max_new_tokens_after_the_prompt() {
    // Prompt of three ids, five steps, window of eight: the finished
    // sequence holds 3 + 5 = 8 ids and starts with the prompt.
    let mut g = Generator::new(vec![1, 3, 5], 5, 8).unwrap();
    let mut step: i64 = 0;
    while !g.is_done() {
        g.accept_token(40 + step);
        step += 1;
    }
    assert_eq!(g.tokens().len(), 8);
    assert_eq!(&g.tokens()[..3], &[1, 3, 5]);
    assert_eq!(g.tokens(), &vec![1, 3, 5, 40, 41, 42, 43, 44]);
}

#[test]
fn generation_window_slides_over_the_last_context_size_tokens() {
    let mut g = Generator::new(vec![1, 3], 4, 3).unwrap();
    assert_eq!(g.window(), vec![1, 3]);
    g.accept_token(7);
    assert_eq!(g.window(), vec![1, 3, 7]);
    g.accept_token(9);
    assert_eq!(g.window(), vec![3, 7, 9]);
}

#[test]
fn generation_rejects_empty_prompt_and_zero_window() {
    match Generator::new(vec![], 5, 8) {
        Err(e) => assert_eq!(e, GenerateError::EmptyPrompt),
        Ok(_) => panic!("empty prompt accepted"),
    }
    match Generator::new(vec![1], 5, 0) {
        Err(e) => assert_eq!(e, GenerateError::ZeroContextWindow),
        Ok(_) => panic!("zero context window accepted"),
    }
}

#[test]
fn generation_with_zero_new_tokens_is_already_done() {
    let g = Generator::new(vec![1, 2], 0, 4).unwrap();
    assert!(g.is_done());
    assert_eq!(g.tokens(), &vec![1, 2]);
}

#[test]
fn dataset_windows_and_shifted_targets() {
    let ids: Vec<i64> = (1..=10).collect();
    let d = GPTDatasetV1::from_token_ids(&ids, 4, 4);
    assert_eq!(d.len(), 2);
    assert_eq!(d.get_item(0), (vec![1, 2, 3, 4], vec![2, 3, 4, 5]));
    assert_eq!(d.get_item(1), (vec![5, 6, 7, 8], vec![6, 7, 8, 9]));
}

#[test]
fn dataset_overlapping_stride() {
    let ids: Vec<i64> = (1..=6).collect();
    let d = GPTDatasetV1::from_token_ids(&ids, 3, 1);
    // Starts 0, 1, 2 lie strictly below 6 - 3 = 3.
    assert_eq!(d.len(), 3);
    assert_eq!(d.get_item(0), (vec![1, 2, 3], vec![2, 3, 4]));
    assert_eq!(d.get_item(2), (vec![3, 4, 5], vec![4, 5, 6]));
}

#[test]
fn dataset_with_text_exactly_one_window_long_is_empty() {
    let ids: Vec<i64> = vec![1, 2, 3];
    let d = GPTDatasetV1::from_token_ids(&ids, 3, 1);
    assert_eq!(d.len(), 0);
}

#[test]
fn dataset_batch_returns_the_first_rows() {
    let ids: Vec<i64> = (1..=10).collect();
    let d = GPTDatasetV1::from_token_ids(&ids, 2, 2);
    let batch = d.get_input_tensor_batch(2);
    assert_eq!(batch, vec![vec![1, 2], vec![3, 4]]);
}
