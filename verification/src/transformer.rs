//! One transformer block: attention and feed-forward, each behind its
//! own normalization, each wrapped in a residual connection.
//!
//! The value-level contract of the block is `x' = x + drop(att(norm1(x)))`
//! followed by `out = x' + drop(ff(norm2(x')))`, where the second branch
//! reads the post-attention running value `x'`, never the stale block
//! input. Both residual additions need their two operands shaped alike,
//! which holds because attention here is built width-preserving; the
//! shape contract below states exactly that.

use vstd::prelude::*;

use crate::attention::Attention;
use crate::config::drop_rate_in_unit_interval;
use crate::config::Config;
use crate::error::ConfigError;
use crate::error::ShapeError;
use crate::layers::FeedForward;
use crate::layers::LayerNorm;
use crate::shape::Shape3;

verus! {

/// A transformer block owning one attention layer, one feed-forward
/// block and two independent normalization layers.
#[derive(Clone, Debug)]
pub struct Transformer {
    /// Multi-head causal self-attention, width-preserving in this model.
    pub att: Attention,
    /// Position-wise feed-forward block.
    pub ff: FeedForward,
    /// Normalization applied before the attention branch.
    pub norm1: LayerNorm,
    /// Normalization applied before the feed-forward branch.
    pub norm2: LayerNorm,
    /// Dropout probability on both residual branches, as the bit pattern
    /// of an IEEE-754 double.
    pub drop_rate_bits: u64,
}

impl Transformer {
    /// Feature width at the block's boundary.
    pub open spec fn emb_dim(self) -> usize {
        self.att.d_in
    }

    /// Longest sequence the block accepts.
    pub open spec fn context_length(self) -> usize {
        self.att.context_length
    }

    /// The block's invariant: all four sub-layers well formed and agreeing
    /// on one feature width, with attention width-preserving so that both
    /// residual additions are shape-correct.
    pub open spec fn wf(self) -> bool {
        &&& self.att.wf()
        &&& self.ff.wf()
        &&& self.att.d_out == self.att.d_in
        &&& self.ff.emb_dim == self.att.d_in
        &&& self.norm1.emb_dim == self.att.d_in
        &&& self.norm2.emb_dim == self.att.d_in
        &&& drop_rate_in_unit_interval(self.drop_rate_bits)
    }

    /// Build a block from a hyperparameter bundle.
    ///
    /// The bundle is re-validated here, so a block can never exist around
    /// an attention layer whose head count does not divide the width.
    pub fn new(cfg: Config) -> (r: Result<Transformer, ConfigError>)
        requires
            4 * cfg.emb_dim <= usize::MAX,
        ensures
            match r {
                Ok(t) => {
                    &&& t.wf()
                    &&& t.emb_dim() == cfg.emb_dim
                    &&& t.context_length() == cfg.context_length
                    &&& t.att.num_heads == cfg.num_heads
                    &&& t.att.qkv_bias == cfg.qkv_bias
                    &&& t.att.drop_rate_bits == cfg.drop_rate_bits
                    &&& t.drop_rate_bits == cfg.drop_rate_bits
                },
                Err(e) => match e {
                    ConfigError::ZeroDimension => {
                        cfg.emb_dim == 0 || cfg.num_heads == 0 || cfg.context_length == 0
                    },
                    ConfigError::HeadsDoNotDivideWidth => {
                        &&& cfg.emb_dim >= 1 && cfg.num_heads >= 1 && cfg.context_length >= 1
                        &&& cfg.emb_dim % cfg.num_heads != 0
                    },
                    ConfigError::DropRateOutOfRange => {
                        &&& cfg.emb_dim >= 1 && cfg.num_heads >= 1 && cfg.context_length >= 1
                        &&& cfg.emb_dim % cfg.num_heads == 0
                        &&& !drop_rate_in_unit_interval(cfg.drop_rate_bits)
                    },
                },
            },
            r is Ok <==> {
                &&& cfg.emb_dim >= 1 && cfg.num_heads >= 1 && cfg.context_length >= 1
                &&& cfg.emb_dim % cfg.num_heads == 0
                &&& drop_rate_in_unit_interval(cfg.drop_rate_bits)
            },
    {
        let att = match Attention::new(
            cfg.emb_dim,
            cfg.emb_dim,
            cfg.num_heads,
            cfg.context_length,
            cfg.drop_rate_bits,
            cfg.qkv_bias,
        ) {
            Ok(a) => a,
            Err(e) => {
                return Err(e);
            },
        };
        let ff = FeedForward::new(cfg.emb_dim);
        let norm1 = LayerNorm::new(cfg.emb_dim);
        let norm2 = LayerNorm::new(cfg.emb_dim);
        Ok(Transformer { att, ff, norm1, norm2, drop_rate_bits: cfg.drop_rate_bits })
    }

    /// Accept or reject an input shape, threading it through the block in
    /// forward order: normalization, attention, residual, normalization,
    /// feed-forward, residual. An accepted shape leaves unchanged; a
    /// wrong feature width or an over-long sequence is rejected.
    pub fn forward_shape(&self, s: Shape3) -> (r: Result<Shape3, ShapeError>)
        requires
            self.wf(),
        ensures
            match r {
                Ok(out) => {
                    &&& s.features == self.emb_dim()
                    &&& s.seq_len <= self.context_length()
                    &&& out == s
                },
                Err(e) => match e {
                    ShapeError::WidthMismatch { got, expected } => {
                        &&& s.features != self.emb_dim()
                        &&& got == s.features
                        &&& expected == self.emb_dim()
                    },
                    ShapeError::SequenceTooLong { seq_len, context_length } => {
                        &&& s.features == self.emb_dim()
                        &&& s.seq_len > self.context_length()
                        &&& seq_len == s.seq_len
                        &&& context_length == self.context_length()
                    },
                },
            },
            r is Ok <==> (s.features == self.emb_dim() && s.seq_len <= self.context_length()),
    {
        let normed1 = match self.norm1.forward_shape(s) {
            Ok(x) => x,
            Err(e) => {
                return Err(e);
            },
        };
        let attended = match self.att.forward_shape(normed1) {
            Ok(x) => x,
            Err(e) => {
                return Err(e);
            },
        };
        // First residual: `attended` and `s` agree because attention is
        // width-preserving here, so the addition is shape-correct.
        let normed2 = match self.norm2.forward_shape(attended) {
            Ok(x) => x,
            Err(e) => {
                return Err(e);
            },
        };
        let projected = match self.ff.forward_shape(normed2) {
            Ok(x) => x,
            Err(e) => {
                return Err(e);
            },
        };
        // Second residual: `projected` agrees with the post-attention
        // running value, which the feed-forward branch was fed from.
        Ok(projected)
    }
}

} // verus!
