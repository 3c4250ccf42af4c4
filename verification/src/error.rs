//! Error taxonomy of the model core.
//!
//! Configuration errors arise at construction time, shape errors at the
//! start of a forward pass, sampling parameter errors before any token is
//! drawn. None of them is retried internally; each is returned to the
//! caller of the offending operation.

use vstd::prelude::*;

verus! {

/// A hyperparameter bundle was rejected at construction time.
#[derive(Clone, Copy, Debug, PartialEq, Eq, Structural)]
pub enum ConfigError {
    /// Some dimension (vocabulary, embedding width, context length or head
    /// count) was zero.
    ZeroDimension,
    /// The embedding width is not a multiple of the head count, so no
    /// integral head dimension exists.
    HeadsDoNotDivideWidth,
    /// The dropout probability does not lie in the closed unit interval.
    DropRateOutOfRange,
}

/// An input tensor shape broke the forward-pass contract.
#[derive(Clone, Copy, Debug, PartialEq, Eq, Structural)]
pub enum ShapeError {
    /// The sequence axis is longer than the model's context length; the
    /// fields carry the offending length and the limit.
    SequenceTooLong { seq_len: usize, context_length: usize },
    /// The feature axis differs from the width the layer was built for;
    /// the fields carry the offered and the expected width.
    WidthMismatch { got: usize, expected: usize },
}

/// A generation request was rejected before its first step.
#[derive(Clone, Copy, Debug, PartialEq, Eq, Structural)]
pub enum GenerateError {
    /// The prompt holds no token, so there is no final position to read
    /// logits from.
    EmptyPrompt,
    /// The sliding context window holds no position at all.
    ZeroContextWindow,
}

/// A sampling parameter was rejected before any token was drawn.
#[derive(Clone, Copy, Debug, PartialEq, Eq, Structural)]
pub enum SamplingError {
    /// The temperature is not a positive finite number.
    TemperatureNotPositive,
    /// Top-k keeps no candidate at all.
    TopKZero,
    /// Top-k asks for more candidates than the vocabulary holds; the
    /// fields carry the request and the vocabulary size.
    TopKTooLarge { top_k: usize, vocab_size: usize },
    /// The categorical draw points past the kept candidates; the fields
    /// carry the draw and how many candidates were kept.
    DrawOutOfRange { draw: usize, kept: usize },
}

} // verus!
