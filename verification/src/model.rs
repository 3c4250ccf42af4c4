//! The full decoder-only model: embeddings, a stack of transformer
//! blocks, a final normalization and the output projection to
//! vocabulary logits.
//!
//! A forward pass takes integer token ids shaped `[batch, seq_len]` and
//! returns logits shaped `[batch, seq_len, vocab_size]`; a sequence
//! longer than the context length is rejected, never truncated. The
//! floating-point arithmetic runs on the caller's side against the
//! shapes fixed here.

use vstd::prelude::*;

use crate::bpe::gpt2_decode;
use crate::bpe::gpt2_decoded_text;
use crate::bpe::gpt2_encode;
use crate::bpe::gpt2_token_ids;
use crate::config::drop_rate_in_unit_interval;
use crate::config::Config;
use crate::error::ConfigError;
use crate::error::ShapeError;
use crate::layers::LayerNorm;
use crate::shape::Shape3;
use crate::transformer::Transformer;

verus! {

/// Do all of these ids fit an unsigned 32-bit token id?
pub open spec fn ids_fit_u32(s: Seq<i64>) -> bool {
    forall|k: int| 0 <= k < s.len() ==> 0 <= #[trigger] s[k] <= u32::MAX
}

/// The token-id row that encoding a text yields, widened to the signed
/// 64-bit ids the embedding lookup takes.
pub open spec fn encoded_row(text: Seq<char>) -> Seq<i64> {
    gpt2_token_ids(text).map_values(|t: u32| t as i64)
}

/// The model: a validated hyperparameter bundle, `num_layers` transformer
/// blocks with independent parameters, and the final normalization. The
/// two embedding tables and the output projection are parameter tensors
/// on the caller's side; their required shapes are exposed as functions.
#[derive(Clone, Debug)]
pub struct Model {
    /// The hyperparameters the model was built from.
    pub cfg: Config,
    /// The ordered stack of transformer blocks.
    pub trf_blocks: Vec<Transformer>,
    /// Normalization applied after the last block.
    pub final_norm: LayerNorm,
}

impl Model {
    /// The model's invariant: a well-formed bundle whose fourfold width
    /// fits the machine, exactly `num_layers` blocks, every block well
    /// formed and built to the bundle's width and context length, and
    /// the final normalization at the same width.
    pub open spec fn wf(self) -> bool {
        &&& self.cfg.wf()
        &&& 4 * self.cfg.emb_dim <= usize::MAX
        &&& self.trf_blocks@.len() == self.cfg.num_layers
        &&& forall|k: int|
            0 <= k < self.trf_blocks@.len() ==> (#[trigger] self.trf_blocks@[k]).wf()
        &&& forall|k: int|
            0 <= k < self.trf_blocks@.len() ==> (#[trigger] self.trf_blocks@[k]).emb_dim()
                == self.cfg.emb_dim
        &&& forall|k: int|
            0 <= k < self.trf_blocks@.len() ==> (#[trigger] self.trf_blocks@[k]).context_length()
                == self.cfg.context_length
        &&& self.final_norm.emb_dim == self.cfg.emb_dim
    }

    /// Build a model from a hyperparameter bundle, validating the bundle
    /// on the way: a configuration error surfaces here, at construction,
    /// never during a forward pass.
    #[verifier::loop_isolation(false)]
    pub fn new(cfg: Config) -> (r: Result<Model, ConfigError>)
        requires
            4 * cfg.emb_dim <= usize::MAX,
        ensures
            match r {
                Ok(m) => m.wf() && m.cfg == cfg,
                Err(e) => match e {
                    ConfigError::ZeroDimension => {
                        cfg.vocab_size == 0 || cfg.emb_dim == 0 || cfg.context_length == 0
                            || cfg.num_heads == 0
                    },
                    ConfigError::HeadsDoNotDivideWidth => {
                        &&& cfg.vocab_size >= 1 && cfg.emb_dim >= 1 && cfg.context_length >= 1
                            && cfg.num_heads >= 1
                        &&& cfg.emb_dim % cfg.num_heads != 0
                    },
                    ConfigError::DropRateOutOfRange => {
                        &&& cfg.vocab_size >= 1 && cfg.emb_dim >= 1 && cfg.context_length >= 1
                            && cfg.num_heads >= 1
                        &&& cfg.emb_dim % cfg.num_heads == 0
                        &&& !drop_rate_in_unit_interval(cfg.drop_rate_bits)
                    },
                },
            },
            r is Ok <==> cfg.wf(),
    {
        if cfg.vocab_size == 0 || cfg.emb_dim == 0 || cfg.context_length == 0 || cfg.num_heads
            == 0 {
            return Err(ConfigError::ZeroDimension);
        }
        if cfg.emb_dim % cfg.num_heads != 0 {
            return Err(ConfigError::HeadsDoNotDivideWidth);
        }
        if cfg.drop_rate_bits > crate::config::F64_ONE_BITS {
            return Err(ConfigError::DropRateOutOfRange);
        }
        let mut trf_blocks: Vec<Transformer> = Vec::new();
        let mut layer_idx: usize = 0;
        while layer_idx < cfg.num_layers
            invariant
                trf_blocks@.len() == layer_idx,
                layer_idx <= cfg.num_layers,
                cfg.wf(),
                forall|k: int| 0 <= k < layer_idx ==> (#[trigger] trf_blocks@[k]).wf(),
                forall|k: int|
                    0 <= k < layer_idx ==> (#[trigger] trf_blocks@[k]).emb_dim() == cfg.emb_dim,
                forall|k: int|
                    0 <= k < layer_idx ==> (#[trigger] trf_blocks@[k]).context_length()
                        == cfg.context_length,
            decreases cfg.num_layers - layer_idx,
        {
            let trf = match Transformer::new(cfg) {
                Ok(t) => t,
                Err(_) => {
                    // Unreachable: the bundle was validated above.
                    return Err(ConfigError::ZeroDimension);
                },
            };
            trf_blocks.push(trf);
            layer_idx = layer_idx + 1;
        }
        let final_norm = LayerNorm::new(cfg.emb_dim);
        Ok(Model { cfg, trf_blocks, final_norm })
    }

    /// Shape of the token embedding table the caller must supply:
    /// one row of width `emb_dim` per vocabulary entry.
    pub fn token_emb_shape(&self) -> (r: (usize, usize))
        ensures
            r == (self.cfg.vocab_size, self.cfg.emb_dim),
    {
        (self.cfg.vocab_size, self.cfg.emb_dim)
    }

    /// Shape of the positional embedding table the caller must supply:
    /// one row of width `emb_dim` per absolute position. Lookups always
    /// use the absolute positions `0..seq_len` of the current call.
    pub fn pos_emb_shape(&self) -> (r: (usize, usize))
        ensures
            r == (self.cfg.context_length, self.cfg.emb_dim),
    {
        (self.cfg.context_length, self.cfg.emb_dim)
    }

    /// Shape of the output projection the caller must supply, mapping the
    /// final feature vectors to vocabulary logits; no bias is required.
    pub fn out_head_shape(&self) -> (r: (usize, usize))
        ensures
            r == (self.cfg.emb_dim, self.cfg.vocab_size),
    {
        (self.cfg.emb_dim, self.cfg.vocab_size)
    }

    /// Are all of these token ids valid rows of the embedding table?
    pub fn token_ids_in_vocab(&self, ids: &Vec<i64>) -> (r: bool)
        requires
            self.cfg.vocab_size <= i64::MAX,
        ensures
            r == forall|k: int| 0 <= k < ids@.len() ==> 0 <= #[trigger] ids@[k] < self.cfg.vocab_size,
    {
        let mut k: usize = 0;
        while k < ids.len()
            invariant
                k <= ids@.len(),
                self.cfg.vocab_size <= i64::MAX,
                forall|p: int| 0 <= p < k ==> 0 <= #[trigger] ids@[p] < self.cfg.vocab_size,
            decreases ids@.len() - k,
        {
            let id = ids[k];
            if id < 0 || id >= self.cfg.vocab_size as i64 {
                return false;
            }
            k = k + 1;
        }
        true
    }

    /// Accept or reject the shape `[batch, seq_len]` of a batch of token
    /// ids, and give the shape of the logits a forward pass returns for
    /// it. A sequence longer than the context length is a shape error —
    /// there is no row of the positional table for it — and the error
    /// names the offending length. An accepted input always yields
    /// logits shaped `[batch, seq_len, vocab_size]`.
    #[verifier::loop_isolation(false)]
    pub fn forward_shape(&self, batch: usize, seq_len: usize) -> (r: Result<
        (usize, usize, usize),
        ShapeError,
    >)
        requires
            self.wf(),
        ensures
            match r {
                Ok(out) => {
                    &&& seq_len <= self.cfg.context_length
                    &&& out == (batch, seq_len, self.cfg.vocab_size)
                },
                Err(e) => e == (ShapeError::SequenceTooLong {
                    seq_len,
                    context_length: self.cfg.context_length,
                }),
            },
            r is Ok <==> seq_len <= self.cfg.context_length,
    {
        // The positional lookup embeds absolute positions 0..seq_len, so
        // the sequence must fit the positional table.
        if seq_len > self.cfg.context_length {
            return Err(
                ShapeError::SequenceTooLong {
                    seq_len,
                    context_length: self.cfg.context_length,
                },
            );
        }
        // Token plus positional embedding, then input dropout: the
        // activations enter the stack at the embedding width.
        let mut s = Shape3 { batch, seq_len, features: self.cfg.emb_dim };
        let mut k: usize = 0;
        while k < self.trf_blocks.len()
            invariant
                s == (Shape3 { batch, seq_len, features: self.cfg.emb_dim }),
                k <= self.trf_blocks@.len(),
            decreases self.trf_blocks@.len() - k,
        {
            s = match self.trf_blocks[k].forward_shape(s) {
                Ok(x) => x,
                Err(_) => {
                    // Unreachable: every block accepts the embedding
                    // width and any sequence within the context length.
                    return Err(
                        ShapeError::SequenceTooLong {
                            seq_len,
                            context_length: self.cfg.context_length,
                        },
                    );
                },
            };
            k = k + 1;
        }
        let s = match self.final_norm.forward_shape(s) {
            Ok(x) => x,
            Err(_) => {
                return Err(
                    ShapeError::SequenceTooLong {
                        seq_len,
                        context_length: self.cfg.context_length,
                    },
                );
            },
        };
        // Output projection to vocabulary logits.
        Ok((s.batch, s.seq_len, self.cfg.vocab_size))
    }

    /// Encode a starting context into the row of token ids a forward
    /// pass takes; the caller turns the row into its `[1, len]` device
    /// tensor.
    pub fn text_to_tensor(&self, start_context: String) -> (r: Vec<i64>)
        ensures
            r@ == encoded_row(start_context@),
    {
        let ids = gpt2_encode(start_context.as_str());
        let mut out: Vec<i64> = Vec::new();
        let mut k: usize = 0;
        while k < ids.len()
            invariant
                k <= ids@.len(),
                ids@ == gpt2_token_ids(start_context@),
                out@.len() == k,
                forall|p: int| 0 <= p < k ==> #[trigger] out@[p] == ids@[p] as i64,
            decreases ids@.len() - k,
        {
            out.push(ids[k] as i64);
            k = k + 1;
        }
        proof {
            assert(out@ =~= encoded_row(start_context@));
        }
        out
    }

    /// Decode a row of sampled token ids back into text. An id outside
    /// the unsigned 32-bit range can name no vocabulary entry, and ids
    /// the vocabulary lacks fail in the tokenizer itself; both give
    /// nothing back. A row that is exactly the encoding of some text
    /// decodes to that text.
    pub fn logits_to_text(&self, token_ids: &Vec<i64>) -> (r: Option<String>)
        ensures
            r matches Some(t) ==> {
                &&& ids_fit_u32(token_ids@)
                &&& t@ == gpt2_decoded_text(token_ids@.map_values(|x: i64| x as u32))
            },
            !ids_fit_u32(token_ids@) ==> r is None,
            forall|s: Seq<char>|
                token_ids@ == encoded_row(s) ==> r is Some && gpt2_decoded_text(
                    token_ids@.map_values(|x: i64| x as u32),
                ) == s,
    {
        let mut narrow: Vec<u32> = Vec::new();
        let mut k: usize = 0;
        while k < token_ids.len()
            invariant
                k <= token_ids@.len(),
                narrow@.len() == k,
                forall|p: int| 0 <= p < k ==> 0 <= #[trigger] token_ids@[p] <= u32::MAX,
                forall|p: int| 0 <= p < k ==> #[trigger] narrow@[p] == token_ids@[p] as u32,
            decreases token_ids@.len() - k,
        {
            let id = token_ids[k];
            if id < 0 || id > u32::MAX as i64 {
                return None;
            }
            narrow.push(id as u32);
            k = k + 1;
        }
        proof {
            assert(narrow@ =~= token_ids@.map_values(|x: i64| x as u32));
            assert forall|s: Seq<char>| token_ids@ == encoded_row(s) implies narrow@
                == gpt2_token_ids(s) by {
                assert(narrow@ =~= gpt2_token_ids(s));
            }
        }
        gpt2_decode(&narrow)
    }
}

} // verus!
