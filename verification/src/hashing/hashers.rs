//! The typed hasher families.

pub mod msp;
