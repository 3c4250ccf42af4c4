//! Position-wise layers: normalization, activation, feed-forward.
//!
//! Each layer here treats every sequence position independently, so its
//! whole shape behaviour is: reject a feature width it was not built for,
//! and otherwise hand the shape through unchanged. The feed-forward block
//! widens to four times the embedding width internally and projects back,
//! which is why its construction guards that widening against overflow.

use vstd::prelude::*;

use crate::error::ShapeError;
use crate::shape::Shape3;

verus! {

/// Per-position feature normalization with a learned scale and shift of
/// the embedding width. The numeric rule — subtract the mean, divide by
/// the square root of the biased variance plus a small epsilon, then
/// scale and shift — runs on the caller's floating-point side; the layer
/// itself fixes the feature width those parameter vectors must have.
#[derive(Clone, Copy, Debug, PartialEq, Eq, Structural)]
pub struct LayerNorm {
    /// Feature width the scale and shift vectors are sized for.
    pub emb_dim: usize,
}

impl LayerNorm {
    /// A normalization layer over feature vectors of width `emb_dim`.
    pub fn new(emb_dim: usize) -> (r: LayerNorm)
        requires
            emb_dim >= 1,
        ensures
            r.emb_dim == emb_dim,
    {
        LayerNorm { emb_dim }
    }

    /// Normalization is elementwise over the last axis: the shape passes
    /// through exactly when the feature width matches.
    pub fn forward_shape(&self, s: Shape3) -> (r: Result<Shape3, ShapeError>)
        ensures
            match r {
                Ok(out) => s.features == self.emb_dim && out == s,
                Err(e) => s.features != self.emb_dim && e == (ShapeError::WidthMismatch {
                    got: s.features,
                    expected: self.emb_dim,
                }),
            },
    {
        if s.features != self.emb_dim {
            return Err(ShapeError::WidthMismatch { got: s.features, expected: self.emb_dim });
        }
        Ok(s)
    }
}

/// The smooth nonlinearity used inside the feed-forward block:
/// elementwise, stateless and parameter-free, so it accepts any shape
/// and returns it unchanged. The curve itself — half of x times one plus
/// the hyperbolic tangent of a cubic polynomial in x — runs on the
/// caller's floating-point side.
#[derive(Clone, Copy, Debug, PartialEq, Eq, Structural)]
pub struct GELU {
}

impl GELU {
    /// The activation has no state to set up.
    pub fn new() -> (r: GELU)
        ensures
            r == (GELU {  }),
    {
        GELU {  }
    }

    /// An elementwise map never changes the shape.
    pub fn forward_shape(&self, s: Shape3) -> (r: Shape3)
        ensures
            r == s,
    {
        s
    }
}

/// Two-layer position-wise projection: expand the feature axis fourfold,
/// apply the activation, project back. Both linear layers own their own
/// weight and bias parameters on the caller's floating-point side.
#[derive(Clone, Copy, Debug, PartialEq, Eq, Structural)]
pub struct FeedForward {
    /// Feature width at the block's boundary; the hidden width is four
    /// times this.
    pub emb_dim: usize,
}

impl FeedForward {
    /// The block's construction-time invariant: a positive width whose
    /// fourfold expansion still fits the machine.
    pub open spec fn wf(self) -> bool {
        &&& self.emb_dim >= 1
        &&& 4 * self.emb_dim <= usize::MAX
    }

    /// A feed-forward block at feature width `emb_dim`.
    pub fn new(emb_dim: usize) -> (r: FeedForward)
        requires
            emb_dim >= 1,
            4 * emb_dim <= usize::MAX,
        ensures
            r.emb_dim == emb_dim,
            r.wf(),
    {
        FeedForward { emb_dim }
    }

    /// Width of the hidden expansion between the two linear layers.
    pub fn hidden_dim(&self) -> (r: usize)
        requires
            self.wf(),
        ensures
            r == 4 * self.emb_dim,
    {
        4 * self.emb_dim
    }

    /// Expand, activate, project back: position-wise, so the shape passes
    /// through exactly when the feature width matches.
    pub fn forward_shape(&self, s: Shape3) -> (r: Result<Shape3, ShapeError>)
        ensures
            match r {
                Ok(out) => s.features == self.emb_dim && out == s,
                Err(e) => s.features != self.emb_dim && e == (ShapeError::WidthMismatch {
                    got: s.features,
                    expected: self.emb_dim,
                }),
            },
    {
        if s.features != self.emb_dim {
            return Err(ShapeError::WidthMismatch { got: s.features, expected: self.emb_dim });
        }
        Ok(s)
    }
}

} // verus!
