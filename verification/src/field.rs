//! 256-bit unsigned integers, the carrier of field elements.

use vstd::prelude::*;

verus! {

/// Two to the power 128, the weight of the high half of a [`U256`].
pub open spec fn pow2_128() -> nat {
    0x1_0000_0000_0000_0000_0000_0000_0000_0000nat
}

/// Two to the power 64, the weight of the second of four 64-bit limbs.
pub open spec fn pow2_64() -> nat {
    0x1_0000_0000_0000_0000nat
}

/// The integer that four 64-bit limbs stand for, the lowest first.
pub open spec fn limbs_value(limbs: [u64; 4]) -> nat {
    limbs[0] as nat + limbs[1] as nat * pow2_64() + (limbs[2] as nat + limbs[3] as nat
        * pow2_64()) * pow2_128()
}

/// A 256-bit unsigned integer, held as two 128-bit halves.
#[derive(Clone, Copy, Debug, PartialEq, Eq, Structural)]
pub struct U256 {
    pub hi: u128,
    pub lo: u128,
}

impl View for U256 {
    type V = nat;

    /// The integer that the two halves stand for.
    open spec fn view(&self) -> nat {
        self.hi as nat * pow2_128() + self.lo as nat
    }
}

impl U256 {
    /// The integer with the given high and low halves.
    pub fn new(hi: u128, lo: u128) -> (r: U256)
        ensures
            r.hi == hi,
            r.lo == lo,
    {
        U256 { hi, lo }
    }

    /// Zero.
    pub fn zero() -> (r: U256)
        ensures
            r@ == 0,
            r == (U256 { hi: 0, lo: 0 }),
    {
        U256 { hi: 0, lo: 0 }
    }

    /// Widens a 128-bit integer.
    pub fn from_u128(x: u128) -> (r: U256)
        ensures
            r@ == x,
            r == (U256 { hi: 0, lo: x }),
    {
        U256 { hi: 0, lo: x }
    }

    /// The integer with the given 64-bit limbs, the lowest first.
    pub fn from_limbs(limbs: [u64; 4]) -> (r: U256)
        ensures
            r@ == limbs_value(limbs),
    {
        let lo: u128 = limbs[0] as u128 + limbs[1] as u128 * 0x1_0000_0000_0000_0000u128;
        let hi: u128 = limbs[2] as u128 + limbs[3] as u128 * 0x1_0000_0000_0000_0000u128;
        U256 { hi, lo }
    }

    /// The four 64-bit limbs of the integer, the lowest first.
    pub fn to_limbs(&self) -> (r: [u64; 4])
        ensures
            limbs_value(r) == self@,
    {
        let low: u128 = 0x1_0000_0000_0000_0000u128;
        [
            (self.lo % low) as u64,
            (self.lo / low) as u64,
            (self.hi % low) as u64,
            (self.hi / low) as u64,
        ]
    }

    /// Whether the integer is zero.
    pub fn is_zero(&self) -> (r: bool)
        ensures
            r == (self@ == 0),
    {
        self.hi == 0 && self.lo == 0
    }

    /// Strict order of the integers.
    pub fn lt(&self, other: &U256) -> (r: bool)
        ensures
            r == (self@ < other@),
    {
        self.hi < other.hi || (self.hi == other.hi && self.lo < other.lo)
    }

    /// The integer as a `u128`, when it fits.
    pub fn to_u128(&self) -> (r: Option<u128>)
        ensures
            r is Some <==> self@ <= u128::MAX,
            r matches Some(x) ==> x == self@,
    {
        if self.hi == 0 {
            Some(self.lo)
        } else {
            None
        }
    }
}

} // verus!
