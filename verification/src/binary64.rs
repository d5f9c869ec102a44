//! Binary floating-point numbers, told apart by their bits.

use vstd::prelude::*;

verus! {

/// A number in the 64-bit binary interchange format of IEEE 754, as the integer that its bits
/// spell: one sign bit, eleven exponent bits and fifty-two fraction bits, from the top.
#[derive(Clone, Copy, Debug, PartialEq, Eq, Structural)]
pub struct Binary64 {
    pub bits: u64,
}

impl Binary64 {
    /// Whether the sign bit is set.
    pub open spec fn sign(self) -> bool {
        self.bits as int / 0x8000_0000_0000_0000 == 1
    }

    /// The exponent field.
    pub open spec fn exponent(self) -> int {
        self.bits as int / 0x10_0000_0000_0000 % 0x800
    }

    /// The fraction field.
    pub open spec fn fraction(self) -> int {
        self.bits as int % 0x10_0000_0000_0000
    }

    /// Whether the bits stand for no number at all.
    pub open spec fn is_nan(self) -> bool {
        self.exponent() == 0x7ff && self.fraction() != 0
    }

    /// Whether the number is zero, of either sign.
    pub open spec fn is_zero(self) -> bool {
        self.exponent() == 0 && self.fraction() == 0
    }

    /// Whether the number is less than zero. Neither zero is, nor is a NaN.
    pub open spec fn is_below_zero(self) -> bool {
        self.sign() && !self.is_nan() && !self.is_zero()
    }

    /// Whether the number is less than zero.
    pub fn below_zero(&self) -> (r: bool)
        ensures
            r == self.is_below_zero(),
    {
        self.bits > 0x8000_0000_0000_0000 && self.bits <= 0xfff0_0000_0000_0000
    }
}

/// A number is less than zero where its sign bit is set and what is left of its bits is neither
/// zero nor more than the bits of infinity.
pub proof fn law_below_zero(x: Binary64)
    ensures
        x.is_below_zero() <==> {
            let rest = x.bits & 0x7fff_ffff_ffff_ffff;
            &&& x.bits >> 63 == 1
            &&& 0 < rest <= 0x7ff0_0000_0000_0000
        },
{
    let bits = x.bits;
    assert(bits >> 63 == bits / 0x8000_0000_0000_0000) by (bit_vector);
    assert(bits & 0x7fff_ffff_ffff_ffff == bits % 0x8000_0000_0000_0000) by (bit_vector);
}

/// Of a number and its opposite, which has the other sign bit, at most one is less than zero, and
/// one is unless they are zeros or NaNs: where what is left of the bits is zero, or more than the
/// bits of infinity.
pub proof fn law_opposite(x: Binary64, y: Binary64)
    requires
        y.bits == x.bits ^ 0x8000_0000_0000_0000,
    ensures
        !(x.is_below_zero() && y.is_below_zero()),
        x.is_below_zero() || y.is_below_zero() <==> 0 < x.bits & 0x7fff_ffff_ffff_ffff
            <= 0x7ff0_0000_0000_0000,
{
    law_below_zero(x);
    law_below_zero(y);
    let a = x.bits;
    let b = y.bits;
    assert(b & 0x7fff_ffff_ffff_ffff == a & 0x7fff_ffff_ffff_ffff && (b >> 63 == 1) != (a >> 63
        == 1)) by (bit_vector)
        requires
            b == a ^ 0x8000_0000_0000_0000,
    ;
}

} // verus!
