//! Exact fractions for the averages, rates and percentages of a snapshot.

use vstd::prelude::*;

verus! {

/// The fraction `num / den`. It is kept as computed, not reduced to lowest terms.
#[derive(Debug, Clone, Copy, PartialEq, Eq, Structural)]
pub struct Ratio {
    pub num: i128,
    pub den: i128,
}

impl Ratio {
    /// The denominator is positive.
    pub open spec fn wf(self) -> bool {
        self.den > 0
    }

    /// The fraction stands for the number zero.
    pub open spec fn is_zero(self) -> bool {
        self.num == 0
    }

    /// Zero, as `0 / 1`.
    pub open spec fn zero() -> Ratio {
        Ratio { num: 0, den: 1 }
    }

    /// `num / den` where `den` is positive, and zero otherwise.
    pub open spec fn or_zero(num: int, den: int) -> Ratio {
        if den > 0 {
            Ratio { num: num as i128, den: den as i128 }
        } else {
            Ratio::zero()
        }
    }

    /// `num / den` where `den` is positive, and zero otherwise.
    pub fn new(num: i128, den: i128) -> (r: Ratio)
        ensures
            r == Ratio::or_zero(num as int, den as int),
            r.wf(),
    {
        if den > 0 {
            Ratio { num, den }
        } else {
            Ratio { num: 0, den: 1 }
        }
    }
}

} // verus!
