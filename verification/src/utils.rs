//! Small reusable structures: bit sets over plain unsigned words.

pub mod bit_array;
