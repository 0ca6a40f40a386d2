//! A fixed-width binary genome packed into an unsigned integer scalar,
//! together with randomized mutation operators over its addressable bits.

pub mod crossover;
pub mod mutator;
pub mod scalar;
pub mod sequence;
