use vstd::prelude::*;

verus! {

/// Mask of the sign bit of an IEEE-754 binary64 value.
pub const SIGN_MASK: u64 = 0x8000_0000_0000_0000;

/// A real number in IEEE-754 binary64 encoding, held as its 64 bits.
///
/// Coordinates of the building map are doubles; the library only moves
/// them around and negates them, and negation of a binary64 value is
/// exactly the flip of its sign bit.
#[derive(Clone, Copy, Debug, PartialEq, Eq, Structural)]
pub struct Coord {
    pub bits: u64,
}

/// Bits of the negation of the binary64 value with bits `b`.
pub open spec fn neg_bits(b: u64) -> u64 {
    b ^ SIGN_MASK
}

impl Coord {
    /// The value whose binary64 encoding is `bits`.
    pub fn from_bits(bits: u64) -> (r: Coord)
        ensures
            r.bits == bits,
    {
        Coord { bits }
    }

    /// The negated value, in specifications.
    pub open spec fn spec_neg(self) -> Coord {
        Coord { bits: neg_bits(self.bits) }
    }

    /// The negated value.
    pub fn neg(self) -> (r: Coord)
        ensures
            r == self.spec_neg(),
    {
        Coord { bits: self.bits ^ SIGN_MASK }
    }
}

/// Negating twice gives back the value bit for bit.
pub proof fn lemma_neg_involutive(c: Coord)
    ensures
        c.spec_neg().spec_neg() == c,
{
    let b = c.bits;
    assert(b ^ 0x8000_0000_0000_0000u64 ^ 0x8000_0000_0000_0000u64 == b) by (bit_vector);
}

} // verus!
