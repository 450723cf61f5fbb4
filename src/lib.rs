//! Table lookups of periodic functions and bit-level helpers on IEEE-754
//! bit patterns, with their behaviour stated and proved.
//!
//! Floating-point values appear here only as their raw bit patterns
//! (`u32` for single precision, `u64` for double precision). Angles are
//! fixed-point integer keys: a table is told which key stands for a half
//! turn, and every fold and reduction is exact integer arithmetic.

pub mod bit_magic;
pub mod lookup_table;
