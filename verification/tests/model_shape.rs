use gpt_core::attention::Attention;
use gpt_core::config::Config;
use gpt_core::error::ConfigError;
use gpt_core::error::ShapeError;
use gpt_core::layers::FeedForward;
use gpt_core::layers::LayerNorm;
use gpt_core::layers::GELU;
use gpt_core::model::Model;
use gpt_core::shape::Shape3;
use gpt_core::transformer::Transformer;

fn small_config() -> Config {
    Config::new(100, 16, 8, 4, 2, 0.1f64.to_bits(), false).unwrap()
}

#[test]
fn config_accepts_valid_bundle() {
    let cfg = small_config();
    assert_eq!(cfg.vocab_size, 100);
    assert_eq!(cfg.emb_dim, 16);
    assert_eq!(cfg.context_length, 8);
    assert_eq!(cfg.num_heads, 4);
    assert_eq!(cfg.num_layers, 2);
    assert!(!cfg.qkv_bias);
    assert_eq!(cfg.head_dim(), 4);
}

#[test]
fn config_rejects_indivisible_width() {
    let r = Config::new(100, 16, 8, 3, 2, 0.1f64.to_bits(), false);
    assert_eq!(r.unwrap_err(), ConfigError::HeadsDoNotDivideWidth);
}

#[test]
fn config_rejects_zero_dimensions() {
    let bits = 0.0f64.to_bits();
    assert_eq!(Config::new(0, 16, 8, 4, 2, bits, false).unwrap_err(), ConfigError::ZeroDimension);
    assert_eq!(Config::new(100, 0, 8, 4, 2, bits, false).unwrap_err(), ConfigError::ZeroDimension);
    assert_eq!(Config::new(100, 16, 0, 4, 2, bits, false).unwrap_err(), ConfigError::ZeroDimension);
    assert_eq!(Config::new(100, 16, 8, 0, 2, bits, false).unwrap_err(), ConfigError::ZeroDimension);
}

#[test]
fn config_rejects_drop_rate_outside_unit_interval() {
    assert_eq!(
        Config::new(100, 16, 8, 4, 2, 1.5f64.to_bits(), false).unwrap_err(),
        ConfigError::DropRateOutOfRange
    );
    assert_eq!(
        Config::new(100, 16, 8, 4, 2, (-0.1f64).to_bits(), false).unwrap_err(),
        ConfigError::DropRateOutOfRange
    );
    assert!(Config::new(100, 16, 8, 4, 2, 0.0f64.to_bits(), false).is_ok());
    assert!(Config::new(100, 16, 8, 4, 2, 1.0f64.to_bits(), false).is_ok());
}

#[test]
fn model_forward_shape_is_batch_seq_vocab() {
    let model = Model::new(small_config()).unwrap();
    // A batch of two sequences of eight token ids gives logits of shape
    // [2, 8, 100].
    assert_eq!(model.forward_shape(2, 8), Ok((2, 8, 100)));
    assert_eq!(model.forward_shape(1, 1), Ok((1, 1, 100)));
}

#[test]
fn model_rejects_sequence_beyond_context_but_accepts_exact_fit() {
    let model = Model::new(small_config()).unwrap();
    assert_eq!(
        model.forward_shape(2, 9),
        Err(ShapeError::SequenceTooLong { seq_len: 9, context_length: 8 })
    );
    assert!(model.forward_shape(2, 8).is_ok());
}

#[test]
fn model_construction_rejects_bad_bundle() {
    let cfg = Config {
        vocab_size: 100,
        emb_dim: 16,
        context_length: 8,
        num_heads: 3,
        num_layers: 2,
        drop_rate_bits: 0.1f64.to_bits(),
        qkv_bias: false,
    };
    assert_eq!(Model::new(cfg).unwrap_err(), ConfigError::HeadsDoNotDivideWidth);
}

#[test]
fn model_parameter_table_shapes() {
    let model = Model::new(small_config()).unwrap();
    assert_eq!(model.token_emb_shape(), (100, 16));
    assert_eq!(model.pos_emb_shape(), (8, 16));
    assert_eq!(model.out_head_shape(), (16, 100));
    assert_eq!(model.trf_blocks.len(), 2);
}

#[test]
fn model_checks_token_id_range() {
    let model = Model::new(small_config()).unwrap();
    assert!(model.token_ids_in_vocab(&vec![0, 57, 99]));
    assert!(!model.token_ids_in_vocab(&vec![0, 100]));
    assert!(!model.token_ids_in_vocab(&vec![-1]));
    assert!(model.token_ids_in_vocab(&vec![]));
}

#[test]
fn attention_mask_is_strictly_causal() {
    let att = Attention::new(16, 16, 4, 8, 0.0f64.to_bits(), false).unwrap();
    for i in 0..8 {
        for j in 0..8 {
            assert_eq!(att.visible(i, j), j <= i, "mask at ({}, {})", i, j);
        }
    }
}

#[test]
fn attention_rejects_indivisible_width_and_long_sequences() {
    assert_eq!(
        Attention::new(16, 16, 5, 8, 0.0f64.to_bits(), false).unwrap_err(),
        ConfigError::HeadsDoNotDivideWidth
    );
    let att = Attention::new(16, 16, 4, 8, 0.0f64.to_bits(), false).unwrap();
    let r = att.forward_shape(Shape3::new(2, 9, 16));
    assert_eq!(r, Err(ShapeError::SequenceTooLong { seq_len: 9, context_length: 8 }));
    let r = att.forward_shape(Shape3::new(2, 8, 12));
    assert_eq!(r, Err(ShapeError::WidthMismatch { got: 12, expected: 16 }));
    assert_eq!(att.forward_shape(Shape3::new(2, 8, 16)), Ok(Shape3::new(2, 8, 16)));
}

#[test]
fn attention_head_split_and_merge() {
    let att = Attention::new(16, 16, 4, 8, 0.0f64.to_bits(), false).unwrap();
    let heads = att.split_heads_shape(Shape3::new(2, 8, 16));
    assert_eq!(heads, (2, 4, 8, 4));
    assert_eq!(att.scores_shape(Shape3::new(2, 8, 16)), (2, 4, 8, 8));
    assert_eq!(att.merge_heads_shape(heads), Shape3::new(2, 8, 16));
}

#[test]
fn transformer_block_preserves_shape() {
    let block = Transformer::new(small_config()).unwrap();
    assert_eq!(block.forward_shape(Shape3::new(2, 8, 16)), Ok(Shape3::new(2, 8, 16)));
    assert_eq!(
        block.forward_shape(Shape3::new(2, 8, 20)),
        Err(ShapeError::WidthMismatch { got: 20, expected: 16 })
    );
    assert_eq!(
        block.forward_shape(Shape3::new(2, 9, 16)),
        Err(ShapeError::SequenceTooLong { seq_len: 9, context_length: 8 })
    );
}

#[test]
fn position_wise_layers_preserve_shape() {
    let norm = LayerNorm::new(16);
    assert_eq!(norm.forward_shape(Shape3::new(2, 8, 16)), Ok(Shape3::new(2, 8, 16)));
    assert_eq!(
        norm.forward_shape(Shape3::new(2, 8, 17)),
        Err(ShapeError::WidthMismatch { got: 17, expected: 16 })
    );
    let gelu = GELU::new();
    assert_eq!(gelu.forward_shape(Shape3::new(3, 5, 7)), Shape3::new(3, 5, 7));
    let ff = FeedForward::new(16);
    assert_eq!(ff.hidden_dim(), 64);
    assert_eq!(ff.forward_shape(Shape3::new(2, 8, 16)), Ok(Shape3::new(2, 8, 16)));
}
