//! Multi-head causal self-attention: construction-time validation, the
//! causal visibility mask, and the shape algebra of a forward pass.
//!
//! The floating-point work — projecting to queries, keys and values,
//! scaling scores by the inverse square root of the head dimension,
//! masking invisible positions to negative infinity, softmax, dropout and
//! the weighted sum — runs on the caller's side. What is fixed here is
//! everything that work must respect: which positions are visible to
//! which, how the feature axis splits over heads and merges back, and
//! which input shapes are accepted at all.

use vstd::prelude::*;

use crate::config::drop_rate_in_unit_interval;
use crate::config::F64_ONE_BITS;
use crate::error::ConfigError;
use crate::error::ShapeError;
use crate::shape::Shape3;

verus! {

/// One multi-head causal self-attention layer.
///
/// Owns the fixed square visibility mask of side `context_length`; the
/// four linear projections (query, key, value, output) live with the
/// caller's parameters and are described here only by their widths.
#[derive(Clone, Debug)]
pub struct Attention {
    /// Feature width of the layer's input.
    pub d_in: usize,
    /// Feature width of the layer's output and of the three projections.
    pub d_out: usize,
    /// Number of attention heads the feature axis splits into.
    pub num_heads: usize,
    /// Feature width of a single head: `d_out / num_heads`.
    pub head_dim: usize,
    /// Side of the causal mask; longest accepted sequence.
    pub context_length: usize,
    /// Dropout probability on the attention weights, as the bit pattern
    /// of an IEEE-754 double.
    pub drop_rate_bits: u64,
    /// Whether the query, key and value projections carry bias terms.
    pub qkv_bias: bool,
    /// The causal mask: entry `(i, j)` is true exactly when key position
    /// `j` is visible from query position `i`, that is when `j <= i`.
    pub mask: Vec<Vec<bool>>,
}

impl Attention {
    /// The layer's invariant: positive dimensions, an integral head
    /// dimension, a dropout probability in the unit interval, and a
    /// square mask that marks exactly the non-future positions visible.
    pub open spec fn wf(self) -> bool {
        &&& self.d_in >= 1
        &&& self.d_out >= 1
        &&& self.num_heads >= 1
        &&& self.context_length >= 1
        &&& self.head_dim * self.num_heads == self.d_out
        &&& drop_rate_in_unit_interval(self.drop_rate_bits)
        &&& self.mask@.len() == self.context_length
        &&& forall|i: int|
            0 <= i < self.context_length ==> (#[trigger] self.mask@[i])@.len()
                == self.context_length
        &&& forall|i: int, j: int|
            0 <= i < self.context_length && 0 <= j < self.context_length ==> (
            #[trigger] self.mask@[i]@[j]) == (j <= i)
    }

    /// Build an attention layer and its causal mask.
    ///
    /// A head count that does not divide the output width is a
    /// construction-time error, never a forward-time one.
    #[verifier::loop_isolation(false)]
    pub fn new(
        d_in: usize,
        d_out: usize,
        num_heads: usize,
        context_length: usize,
        drop_rate_bits: u64,
        qkv_bias: bool,
    ) -> (r: Result<Attention, ConfigError>)
        ensures
            match r {
                Ok(a) => {
                    &&& a.wf()
                    &&& a.d_in == d_in
                    &&& a.d_out == d_out
                    &&& a.num_heads == num_heads
                    &&& a.head_dim == d_out as int / num_heads as int
                    &&& a.context_length == context_length
                    &&& a.drop_rate_bits == drop_rate_bits
                    &&& a.qkv_bias == qkv_bias
                },
                Err(e) => match e {
                    ConfigError::ZeroDimension => {
                        d_in == 0 || d_out == 0 || num_heads == 0 || context_length == 0
                    },
                    ConfigError::HeadsDoNotDivideWidth => {
                        &&& d_in >= 1 && d_out >= 1 && num_heads >= 1 && context_length >= 1
                        &&& d_out % num_heads != 0
                    },
                    ConfigError::DropRateOutOfRange => {
                        &&& d_in >= 1 && d_out >= 1 && num_heads >= 1 && context_length >= 1
                        &&& d_out % num_heads == 0
                        &&& !drop_rate_in_unit_interval(drop_rate_bits)
                    },
                },
            },
            r is Ok <==> {
                &&& d_in >= 1 && d_out >= 1 && num_heads >= 1 && context_length >= 1
                &&& d_out % num_heads == 0
                &&& drop_rate_in_unit_interval(drop_rate_bits)
            },
    {
        if d_in == 0 || d_out == 0 || num_heads == 0 || context_length == 0 {
            return Err(ConfigError::ZeroDimension);
        }
        if d_out % num_heads != 0 {
            return Err(ConfigError::HeadsDoNotDivideWidth);
        }
        if drop_rate_bits > F64_ONE_BITS {
            return Err(ConfigError::DropRateOutOfRange);
        }
        let head_dim = d_out / num_heads;
        assert(head_dim * num_heads == d_out) by (nonlinear_arith)
            requires
                num_heads >= 1,
                d_out % num_heads == 0,
                head_dim == d_out as int / num_heads as int,
        ;
        let mut mask: Vec<Vec<bool>> = Vec::new();
        let mut i: usize = 0;
        while i < context_length
            invariant
                i <= context_length,
                mask@.len() == i,
                forall|p: int| 0 <= p < i ==> (#[trigger] mask@[p])@.len() == context_length,
                forall|p: int, q: int|
                    0 <= p < i && 0 <= q < context_length ==> (#[trigger] mask@[p]@[q]) == (q
                        <= p),
            decreases context_length - i,
        {
            let mut row: Vec<bool> = Vec::new();
            let mut j: usize = 0;
            while j < context_length
                invariant
                    j <= context_length,
                    row@.len() == j,
                    forall|q: int| 0 <= q < j ==> (#[trigger] row@[q]) == (q <= i),
                decreases context_length - j,
            {
                row.push(j <= i);
                j = j + 1;
            }
            mask.push(row);
            i = i + 1;
        }
        Ok(
            Attention {
                d_in,
                d_out,
                num_heads,
                head_dim,
                context_length,
                drop_rate_bits,
                qkv_bias,
                mask,
            },
        )
    }

    /// Read one mask entry: is key position `j` visible from query
    /// position `i`?
    pub fn visible(&self, i: usize, j: usize) -> (r: bool)
        requires
            self.wf(),
            i < self.context_length,
            j < self.context_length,
        ensures
            r == (j <= i),
    {
        self.mask[i][j]
    }

    /// Causality of the mask: within the mask's side, position `j` is
    /// marked visible from position `i` exactly when it is not in the
    /// future. Every weight the caller puts on an invisible position is
    /// therefore set to negative infinity before the softmax and so ends
    /// at exactly zero probability.
    pub proof fn lemma_causal_visibility(self, i: int, j: int)
        requires
            self.wf(),
            0 <= i < self.context_length,
            0 <= j < self.context_length,
        ensures
            self.mask@[i]@[j] <==> j <= i,
    {
    }

    /// Accept or reject an input shape.
    ///
    /// A sequence longer than the mask's side is rejected — the layer
    /// never truncates — and so is a feature width the projections were
    /// not built for. An accepted shape keeps its batch and sequence
    /// axes and leaves with the output width.
    pub fn forward_shape(&self, s: Shape3) -> (r: Result<Shape3, ShapeError>)
        requires
            self.wf(),
        ensures
            match r {
                Ok(out) => {
                    &&& s.seq_len <= self.context_length
                    &&& s.features == self.d_in
                    &&& out == (Shape3 {
                        batch: s.batch,
                        seq_len: s.seq_len,
                        features: self.d_out,
                    })
                },
                Err(e) => match e {
                    ShapeError::SequenceTooLong { seq_len, context_length } => {
                        &&& s.seq_len > self.context_length
                        &&& seq_len == s.seq_len
                        &&& context_length == self.context_length
                    },
                    ShapeError::WidthMismatch { got, expected } => {
                        &&& s.seq_len <= self.context_length
                        &&& s.features != self.d_in
                        &&& got == s.features
                        &&& expected == self.d_in
                    },
                },
            },
            r is Ok <==> (s.seq_len <= self.context_length && s.features == self.d_in),
    {
        if s.seq_len > self.context_length {
            return Err(
                ShapeError::SequenceTooLong {
                    seq_len: s.seq_len,
                    context_length: self.context_length,
                },
            );
        }
        if s.features != self.d_in {
            return Err(ShapeError::WidthMismatch { got: s.features, expected: self.d_in });
        }
        Ok(Shape3 { batch: s.batch, seq_len: s.seq_len, features: self.d_out })
    }

    /// Shape of the per-head view of a projected tensor: the feature axis
    /// splits across the heads and the head axis moves before the
    /// sequence axis, giving `[batch, num_heads, seq_len, head_dim]`.
    pub fn split_heads_shape(&self, s: Shape3) -> (r: (usize, usize, usize, usize))
        requires
            self.wf(),
            s.features == self.d_out,
        ensures
            r == (s.batch, self.num_heads, s.seq_len, self.head_dim),
            r.1 * r.3 == s.features,
    {
        assert(self.num_heads * self.head_dim == self.head_dim * self.num_heads) by (nonlinear_arith);
        (s.batch, self.num_heads, s.seq_len, self.head_dim)
    }

    /// Shape of the raw attention scores for a per-head view: every query
    /// position against every key position, `[batch, num_heads, seq_len,
    /// seq_len]`.
    pub fn scores_shape(&self, s: Shape3) -> (r: (usize, usize, usize, usize))
        requires
            self.wf(),
        ensures
            r == (s.batch, self.num_heads, s.seq_len, s.seq_len),
    {
        (s.batch, self.num_heads, s.seq_len, s.seq_len)
    }

    /// Shape after the heads merge back: the head axis returns behind the
    /// sequence axis and fuses with the per-head features into the full
    /// output width.
    pub fn merge_heads_shape(&self, heads: (usize, usize, usize, usize)) -> (r: Shape3)
        requires
            self.wf(),
            heads.1 == self.num_heads,
            heads.3 == self.head_dim,
        ensures
            r == (Shape3 { batch: heads.0, seq_len: heads.2, features: self.d_out }),
    {
        (Shape3 { batch: heads.0, seq_len: heads.2, features: self.num_heads * self.head_dim })
    }
}

} // verus!
