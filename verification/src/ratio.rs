use vstd::prelude::*;

verus! {

/// An exact non-negative fraction `num / den`.
///
/// The derived `==` compares the representation: `1/2` and `2/4` are
/// different values of this type that [`Ratio::same_value`] relates.
#[derive(Clone, Copy, Debug, PartialEq, Eq, Structural)]
pub struct Ratio {
    pub num: u64,
    pub den: u64,
}

impl Ratio {
    /// The fraction equals the integer `n`.
    pub open spec fn is_integer(self, n: int) -> bool {
        self.den > 0 && self.num == n * self.den
    }

    /// Both fractions denote the same rational number.
    pub open spec fn same_value(self, other: Ratio) -> bool {
        self.den > 0 && other.den > 0 && self.num * other.den == other.num * self.den
    }

    /// This fraction is at most `other`.
    pub open spec fn at_most(self, other: Ratio) -> bool {
        self.den > 0 && other.den > 0 && self.num * other.den <= other.num * self.den
    }

    pub fn new(num: u64, den: u64) -> (r: Ratio)
        ensures
            r == (Ratio { num, den }),
    {
        Ratio { num, den }
    }
}

} // verus!
