//! Tensor shapes as plain data.
//!
//! Activations flowing through the model are rank-3 arrays indexed by
//! batch entry, sequence position and feature. The numeric contents live
//! with the caller; the crate computes and checks the shapes, which is
//! where the forward-pass contracts bite.

use vstd::prelude::*;

verus! {

/// Shape of a rank-3 activation tensor: `[batch, seq_len, features]`.
#[derive(Clone, Copy, Debug, PartialEq, Eq, Structural)]
pub struct Shape3 {
    /// Number of independent sequences in the batch.
    pub batch: usize,
    /// Number of positions along the sequence axis.
    pub seq_len: usize,
    /// Width of the feature vector at each position.
    pub features: usize,
}

impl Shape3 {
    /// Bundle three axis lengths into a shape.
    pub fn new(batch: usize, seq_len: usize, features: usize) -> (r: Shape3)
        ensures
            r == (Shape3 { batch, seq_len, features }),
    {
        Shape3 { batch, seq_len, features }
    }
}

} // verus!
