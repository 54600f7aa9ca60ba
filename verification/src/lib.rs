//! A minimal arbitrary-precision natural number: a little-endian vector of
//! 64-bit limbs kept free of most-significant zero limbs, with construction,
//! inspection and minimum, each proved against the number the limbs denote.

pub mod bigint;
pub mod digits;
pub mod input;
pub mod minimum;
pub mod ownership;
