//! A small feedforward network tuned by randomized hill climbing.
//!
//! Scalars are carried as the 64-bit IEEE 754 encodings of the machine
//! numbers they stand for, so that every structural step of evaluation
//! and search is stated and proved over plain values.

pub mod decimal;
pub mod error;
pub mod layer;
pub mod network;
pub mod neuron;
mod rng;
pub mod scalar;
