//! Hash kernels and the typed hasher family built on them.

pub mod common;
pub mod multiply_shift;
pub mod polynomial;
pub mod mod_prime;
pub mod flawed;
pub mod hashers;
