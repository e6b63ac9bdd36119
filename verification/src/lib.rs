//! A static perfect-hash map library based on the two-level FKS
//! (Fredman-Komlos-Szemeredi) construction, together with the family of
//! strongly universal hash kernels that back it.

pub mod traits;
pub mod hashing;
pub mod random;
pub mod utils;
pub mod error;
pub mod fks;
