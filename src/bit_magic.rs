//! Bit-level operations on the raw bit patterns of `f32` (`u32`) and `f64` (`u64`).

use vstd::prelude::*;

verus! {

/// Sign bit of a single-precision bit pattern.
pub const F32_SIGN_BIT: u32 = 0x8000_0000;

/// Bit pattern of `1.0f32`.
pub const F32_ONE: u32 = 0x3F80_0000;

/// Bit pattern of `-1.0f32`.
pub const F32_NEG_ONE: u32 = 0xBF80_0000;

/// Sign bit of a double-precision bit pattern.
pub const F64_SIGN_BIT: u64 = 0x8000_0000_0000_0000;

/// Bit pattern of `1.0f64`.
pub const F64_ONE: u64 = 0x3FF0_0000_0000_0000;

/// Bit pattern of `-1.0f64`.
pub const F64_NEG_ONE: u64 = 0xBFF0_0000_0000_0000;

/// All bits set when `b` holds, none otherwise.
fn bool_to_full_mask_u32(b: bool) -> (r: u32)
    ensures
        r == (if b { u32::MAX } else { 0u32 }),
{
    let one: u32 = if b { 1 } else { 0 };
    let r = !(one.wrapping_sub(1));
    assert(!(1u32.wrapping_sub(1)) == u32::MAX) by (bit_vector);
    assert(!(0u32.wrapping_sub(1)) == 0u32) by (bit_vector);
    r
}

/// All bits set when `b` holds, none otherwise.
fn bool_to_full_mask_u64(b: bool) -> (r: u64)
    ensures
        r == (if b { u64::MAX } else { 0u64 }),
{
    let one: u64 = if b { 1 } else { 0 };
    let r = !(one.wrapping_sub(1));
    assert(!(1u64.wrapping_sub(1)) == u64::MAX) by (bit_vector);
    assert(!(0u64.wrapping_sub(1)) == 0u64) by (bit_vector);
    r
}

/// Keeps a bit pattern when a condition holds and clears it (to `+0.0`) otherwise.
pub trait AndBool: Sized {
    spec fn spec_and(self, b: bool) -> Self;

    fn and(self, b: bool) -> (r: Self)
        ensures
            r == self.spec_and(b),
    ;
}

impl AndBool for u32 {
    open spec fn spec_and(self, b: bool) -> u32 {
        if b { self } else { 0 }
    }

    fn and(self, b: bool) -> (r: u32) {
        let mask = bool_to_full_mask_u32(b);
        let r = self & mask;
        assert(self & u32::MAX == self) by (bit_vector);
        assert(self & 0u32 == 0u32) by (bit_vector);
        r
    }
}

impl AndBool for u64 {
    open spec fn spec_and(self, b: bool) -> u64 {
        if b { self } else { 0 }
    }

    fn and(self, b: bool) -> (r: u64) {
        let mask = bool_to_full_mask_u64(b);
        let r = self & mask;
        assert(self & u64::MAX == self) by (bit_vector);
        assert(self & 0u64 == 0u64) by (bit_vector);
        r
    }
}

/// The bit pattern of `1.0` carrying the sign of the given pattern
/// (`-1.0` for a set sign bit, `NaN`s and `-0.0` included).
pub trait GetSign: Sized {
    spec fn spec_sign(self) -> Self;

    fn sign(self) -> (r: Self)
        ensures
            r == self.spec_sign(),
    ;
}

impl GetSign for u32 {
    open spec fn spec_sign(self) -> u32 {
        if self & F32_SIGN_BIT != 0 { F32_NEG_ONE } else { F32_ONE }
    }

    fn sign(self) -> (r: u32) {
        let r = (self & F32_SIGN_BIT) | F32_ONE;
        assert(r == (if self & 0x8000_0000u32 != 0 { 0xBF80_0000u32 } else { 0x3F80_0000u32 }))
            by (bit_vector)
            requires
                r == (self & 0x8000_0000u32) | 0x3F80_0000u32,
        ;
        r
    }
}

impl GetSign for u64 {
    open spec fn spec_sign(self) -> u64 {
        if self & F64_SIGN_BIT != 0 { F64_NEG_ONE } else { F64_ONE }
    }

    fn sign(self) -> (r: u64) {
        let r = (self & F64_SIGN_BIT) | F64_ONE;
        assert(r == (if self & 0x8000_0000_0000_0000u64 != 0 {
            0xBFF0_0000_0000_0000u64
        } else {
            0x3FF0_0000_0000_0000u64
        })) by (bit_vector)
            requires
                r == (self & 0x8000_0000_0000_0000u64) | 0x3FF0_0000_0000_0000u64,
        ;
        r
    }
}

/// Negation of a floating-point value, done on its bit pattern by flipping
/// the sign bit (exact for every pattern, `NaN`s and zeros included).
pub trait Negate: Sized + Copy {
    spec fn spec_negate(self) -> Self;

    fn negate(self) -> (r: Self)
        ensures
            r == self.spec_negate(),
    ;

    /// Negating twice gives back the same pattern.
    proof fn lemma_negate_involutive(self)
        ensures
            self.spec_negate().spec_negate() == self,
    ;
}

impl Negate for u32 {
    open spec fn spec_negate(self) -> u32 {
        self ^ F32_SIGN_BIT
    }

    fn negate(self) -> (r: u32) {
        self ^ F32_SIGN_BIT
    }

    proof fn lemma_negate_involutive(self) {
        assert((self ^ 0x8000_0000u32) ^ 0x8000_0000u32 == self) by (bit_vector);
    }
}

impl Negate for u64 {
    open spec fn spec_negate(self) -> u64 {
        self ^ F64_SIGN_BIT
    }

    fn negate(self) -> (r: u64) {
        self ^ F64_SIGN_BIT
    }

    proof fn lemma_negate_involutive(self) {
        assert((self ^ 0x8000_0000_0000_0000u64) ^ 0x8000_0000_0000_0000u64 == self)
            by (bit_vector);
    }
}

} // verus!
