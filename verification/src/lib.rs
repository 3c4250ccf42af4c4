//! Core of a decoder-only transformer language model.
//!
//! The crate holds the parts of such a model that are plain data and
//! arithmetic over machine integers: hyperparameter validation, the shape
//! calculus of every layer, the causal visibility mask, the autoregressive
//! generation state machine, top-k filtering over order keys, a whitespace
//! and punctuation tokenizer, and sliding-window dataset construction.
//! Floating-point tensor arithmetic lives outside the crate; callers hand
//! in and take back plain values.

pub mod attention;
pub mod bpe;
pub mod config;
pub mod dataset;
pub mod error;
pub mod generate;
pub mod layers;
pub mod model;
pub mod sampling;
pub mod shape;
pub mod tokenizer;
pub mod transformer;
