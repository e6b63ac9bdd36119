//! Deterministic pseudo-random number generation usable by both the runtime
//! and the generated-table construction paths.

pub mod xorshift;
pub mod xoshiro;
