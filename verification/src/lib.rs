//! Four permuted congruential generators (PCG XSH RR 64/32) stepped in
//! lockstep, one per lane of a four-lane vector.
//!
//! - [`scalar`] defines the scalar generator that every lane reproduces.
//! - [`lanes`] holds the lane-wise arithmetic, among it the 64-bit product
//!   built from 32-bit products and the variable rotation built from shifts.
//! - [`engine`] is the generator itself: construction from explicit seeds
//!   and the four-lane step.
//! - [`seed`] builds an engine from raw bytes and from system entropy.
//! - [`adapter`] offers single values and byte filling on top of the step.

pub mod adapter;
pub mod engine;
pub mod lanes;
pub mod scalar;
pub mod seed;

pub use engine::Avx2Pcg;
pub use seed::SeedError;
