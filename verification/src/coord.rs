//! Positions on an output, as integers that compare the way the positions do.

use vstd::prelude::*;

verus! {

/// A coordinate, a length or a scale, reduced to what comparisons need.
///
/// The compositor computes with binary64 floating-point numbers. `key` orders as the number does,
/// with zero at zero, and is `None` for a NaN, which compares with nothing.
#[derive(Clone, Copy, Debug, PartialEq, Eq, Hash, Structural)]
pub struct Coord {
    pub key: Option<i64>,
}

/// The sign bit of a binary64 number.
pub const SIGN: u64 = 0x8000_0000_0000_0000;

/// The bits of positive infinity. A number whose magnitude is above is a NaN.
pub const INFINITY: u64 = 0x7ff0_0000_0000_0000;

/// The bits of a binary64 number without its sign.
pub open spec fn magnitude(bits: u64) -> int {
    if bits < SIGN {
        bits as int
    } else {
        bits - SIGN
    }
}

impl Coord {
    /// The key of the number with the given bits: its magnitude, negated for a negative number.
    pub open spec fn of_bits(bits: u64) -> Coord {
        if magnitude(bits) > INFINITY {
            Coord { key: None }
        } else if bits < SIGN {
            Coord { key: Some(bits as i64) }
        } else {
            Coord { key: Some((SIGN - bits) as i64) }
        }
    }

    /// Zero, in either sign.
    pub open spec fn spec_zero() -> Coord {
        Coord { key: Some(0) }
    }

    pub open spec fn spec_le(self, other: Coord) -> bool {
        self.key matches Some(a) && other.key matches Some(b) && a <= b
    }

    pub open spec fn spec_lt(self, other: Coord) -> bool {
        self.key matches Some(a) && other.key matches Some(b) && a < b
    }

    pub open spec fn spec_same(self, other: Coord) -> bool {
        self.key matches Some(a) && other.key matches Some(b) && a == b
    }

    /// The coordinate for the number whose binary64 representation is `bits`.
    pub fn from_bits(bits: u64) -> (coord: Coord)
        ensures
            coord == Coord::of_bits(bits),
    {
        if bits < SIGN {
            if bits > INFINITY {
                Coord { key: None }
            } else {
                Coord { key: Some(bits as i64) }
            }
        } else {
            let magnitude: u64 = bits - SIGN;
            if magnitude > INFINITY {
                Coord { key: None }
            } else {
                Coord { key: Some(-(magnitude as i64)) }
            }
        }
    }

    /// Bits of a binary64 number with this coordinate; those of positive zero for zero, and `None`
    /// where no number has it.
    pub fn to_bits(self) -> (bits: Option<u64>)
        ensures
            match bits {
                Some(b) => Coord::of_bits(b) == self && b != SIGN,
                None => self.key is None || self.key->0 > INFINITY || self.key->0 < -INFINITY,
            },
    {
        match self.key {
            None => None,
            Some(key) => {
                if key >= 0 {
                    if key as u64 > INFINITY {
                        None
                    } else {
                        Some(key as u64)
                    }
                } else if key < -(INFINITY as i64) {
                    None
                } else {
                    Some((-key) as u64 + SIGN)
                }
            },
        }
    }

    /// Zero.
    pub fn zero() -> (coord: Coord)
        ensures
            coord == Coord::spec_zero(),
    {
        Coord { key: Some(0) }
    }

    /// `self <= other`, false where either is not a number.
    #[verifier::when_used_as_spec(spec_le)]
    pub fn le(self, other: Coord) -> (r: bool)
        ensures
            r == self.spec_le(other),
    {
        match (self.key, other.key) {
            (Some(a), Some(b)) => a <= b,
            _ => false,
        }
    }

    /// `self < other`, false where either is not a number.
    #[verifier::when_used_as_spec(spec_lt)]
    pub fn lt(self, other: Coord) -> (r: bool)
        ensures
            r == self.spec_lt(other),
    {
        match (self.key, other.key) {
            (Some(a), Some(b)) => a < b,
            _ => false,
        }
    }

    /// `self == other`, false where either is not a number.
    #[verifier::when_used_as_spec(spec_same)]
    pub fn same(self, other: Coord) -> (r: bool)
        ensures
            r == self.spec_same(other),
    {
        match (self.key, other.key) {
            (Some(a), Some(b)) => a == b,
            _ => false,
        }
    }
}

/// Coordinates compare as their keys do, and one that is not a number compares with nothing.
pub proof fn law_compares_by_key(a: Coord, b: Coord, x: i64, y: i64)
    ensures
        a.key is None || b.key is None ==> !a.spec_le(b) && !a.spec_lt(b) && !a.spec_same(b),
        a.key == Some(x) && b.key == Some(y) ==> {
            &&& a.spec_lt(b) <==> x < y
            &&& a.spec_same(b) <==> x == y
            &&& a.spec_le(b) <==> x <= y
        },
{
}

/// The key of a number that is not negative is the integer that its bits are, and changing the sign
/// of the number changes that of the key. Infinity is the last number: what is beyond it in
/// magnitude has no key. Both zeros are zero.
pub proof fn law_key_of_bits(bits: u64)
    requires
        bits < 0x8000_0000_0000_0000,
    ensures
        bits <= 0x7ff0_0000_0000_0000 ==> {
            &&& Coord::of_bits(bits).key matches Some(key) && key == bits
            &&& Coord::of_bits((bits + 0x8000_0000_0000_0000) as u64).key matches Some(key) && key
                == -bits
        },
        bits > 0x7ff0_0000_0000_0000 ==> {
            &&& Coord::of_bits(bits).key is None
            &&& Coord::of_bits((bits + 0x8000_0000_0000_0000) as u64).key is None
        },
        Coord::spec_zero().key == Some(0i64),
{
}

} // verus!
