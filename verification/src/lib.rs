//! A fast, splittable, non-cryptographic pseudo-random number generator.
//!
//! The generator holds 128 bits of state as two 64-bit words and yields one
//! uniformly distributed 64-bit output per state advance. The state
//! transition is an invertible linear map (see [`cycle`]); the output is
//! tempered with a full 128-bit multiply so that it is not a linear function
//! of the state. Derived operations draw arrays of outputs, fill byte
//! buffers little-endian, and split off independent generators.

pub mod ambient;
pub mod cycle;
pub mod model;
mod rng;

pub use rng::Rng;
