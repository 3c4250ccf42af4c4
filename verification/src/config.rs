//! Immutable hyperparameter bundle of the model.
//!
//! A `Config` is built once, validated at construction, and never changed.
//! The dropout probability is carried as the bit pattern of an IEEE-754
//! double so that the bundle itself stays within machine integers; the
//! numeric value is only ever interpreted by the caller that owns the
//! floating-point side of the computation.

use vstd::prelude::*;

use crate::error::ConfigError;

verus! {

/// Bit pattern of the IEEE-754 double 1.0. For a double with clear sign
/// bit, the unsigned order of bit patterns is the numeric order, so a
/// pattern at most this value denotes a number in the closed unit
/// interval (infinities and NaNs all compare above it).
pub const F64_ONE_BITS: u64 = 0x3FF0_0000_0000_0000;

/// Least exponent-all-ones bit pattern: the IEEE-754 double +infinity.
/// Patterns strictly between zero and this value denote positive finite
/// numbers.
pub const F64_INF_BITS: u64 = 0x7FF0_0000_0000_0000;

/// Does this bit pattern denote a dropout probability, that is a finite
/// IEEE-754 double in the closed interval from 0 to 1?
pub open spec fn drop_rate_in_unit_interval(bits: u64) -> bool {
    bits <= F64_ONE_BITS
}

/// Does this bit pattern denote a positive finite IEEE-754 double?
pub open spec fn f64_bits_positive_finite(bits: u64) -> bool {
    0 < bits < F64_INF_BITS
}

/// Hyperparameters of the model, fixed from construction on.
#[derive(Clone, Copy, Debug, PartialEq, Eq, Structural)]
pub struct Config {
    /// Number of distinct token ids the model scores.
    pub vocab_size: usize,
    /// Width of every token's feature vector.
    pub emb_dim: usize,
    /// Longest sequence a forward pass accepts.
    pub context_length: usize,
    /// Number of attention heads per block.
    pub num_heads: usize,
    /// Number of transformer blocks stacked in the model.
    pub num_layers: usize,
    /// Dropout probability as the bit pattern of an IEEE-754 double.
    pub drop_rate_bits: u64,
    /// Whether the attention projections carry bias terms.
    pub qkv_bias: bool,
}

impl Config {
    /// The construction-time invariant: every dimension positive, the head
    /// count dividing the embedding width, and the dropout probability in
    /// the unit interval.
    pub open spec fn wf(self) -> bool {
        &&& self.vocab_size >= 1
        &&& self.emb_dim >= 1
        &&& self.context_length >= 1
        &&& self.num_heads >= 1
        &&& self.emb_dim % self.num_heads == 0
        &&& drop_rate_in_unit_interval(self.drop_rate_bits)
    }

    /// Feature width of a single attention head.
    pub open spec fn spec_head_dim(self) -> int
        recommends
            self.num_heads >= 1,
    {
        self.emb_dim as int / self.num_heads as int
    }

    /// Validate and freeze a hyperparameter bundle.
    ///
    /// A width that no integral head dimension fits is a construction-time
    /// error, never a forward-time one.
    pub fn new(
        vocab_size: usize,
        emb_dim: usize,
        context_length: usize,
        num_heads: usize,
        num_layers: usize,
        drop_rate_bits: u64,
        qkv_bias: bool,
    ) -> (r: Result<Config, ConfigError>)
        ensures
            match r {
                Ok(c) => {
                    &&& c.wf()
                    &&& c == (Config {
                        vocab_size,
                        emb_dim,
                        context_length,
                        num_heads,
                        num_layers,
                        drop_rate_bits,
                        qkv_bias,
                    })
                },
                Err(e) => match e {
                    ConfigError::ZeroDimension => {
                        vocab_size == 0 || emb_dim == 0 || context_length == 0 || num_heads == 0
                    },
                    ConfigError::HeadsDoNotDivideWidth => {
                        &&& vocab_size >= 1 && emb_dim >= 1 && context_length >= 1
                            && num_heads >= 1
                        &&& emb_dim % num_heads != 0
                    },
                    ConfigError::DropRateOutOfRange => {
                        &&& vocab_size >= 1 && emb_dim >= 1 && context_length >= 1
                            && num_heads >= 1
                        &&& emb_dim % num_heads == 0
                        &&& !drop_rate_in_unit_interval(drop_rate_bits)
                    },
                },
            },
            r is Ok <==> {
                &&& vocab_size >= 1 && emb_dim >= 1 && context_length >= 1 && num_heads >= 1
                &&& emb_dim % num_heads == 0
                &&& drop_rate_in_unit_interval(drop_rate_bits)
            },
    {
        if vocab_size == 0 || emb_dim == 0 || context_length == 0 || num_heads == 0 {
            return Err(ConfigError::ZeroDimension);
        }
        if emb_dim % num_heads != 0 {
            return Err(ConfigError::HeadsDoNotDivideWidth);
        }
        if drop_rate_bits > F64_ONE_BITS {
            return Err(ConfigError::DropRateOutOfRange);
        }
        Ok(Config { vocab_size, emb_dim, context_length, num_heads, num_layers, drop_rate_bits, qkv_bias })
    }

    /// Feature width of a single attention head, the embedding width split
    /// evenly over the heads.
    pub fn head_dim(&self) -> (r: usize)
        requires
            self.wf(),
        ensures
            r == self.spec_head_dim(),
            r * self.num_heads == self.emb_dim,
    {
        let r = self.emb_dim / self.num_heads;
        assert(r * self.num_heads == self.emb_dim) by (nonlinear_arith)
            requires
                self.num_heads >= 1,
                self.emb_dim % self.num_heads == 0,
                r == self.emb_dim as int / self.num_heads as int,
        ;
        r
    }
}

} // verus!
