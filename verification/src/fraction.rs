//! Non-negative fractions: the mathematical model of levels and tunables.

use vstd::prelude::*;

verus! {

/// Largest absolute value a 16-bit sample can have.
pub const MAX_AMPLITUDE: u64 = 32768;

/// Largest denominator a [`Level`] can carry (2^48).
pub const MAX_LEVEL_DEN: u64 = 0x1_0000_0000_0000;

/// A non-negative fraction `num / den`, the model that contracts speak of.
pub struct Fraction {
    pub num: nat,
    pub den: nat,
}

impl Fraction {
    /// `self < other`, decided by cross-multiplication; exact where both
    /// denominators are positive.
    pub open spec fn lt(self, other: Fraction) -> bool {
        self.num * other.den < other.num * self.den
    }

    /// The product of two fractions.
    pub open spec fn times(self, other: Fraction) -> Fraction {
        Fraction { num: self.num * other.num, den: self.den * other.den }
    }

    /// The whole number `n` as a fraction.
    pub open spec fn whole(n: nat) -> Fraction {
        Fraction { num: n, den: 1 }
    }
}

/// A tunable factor or duration: the fraction `num / den` with `den > 0`.
#[derive(Clone, Copy, Debug)]
pub struct Ratio {
    num: u32,
    den: u32,
}

impl View for Ratio {
    type V = Fraction;

    closed spec fn view(&self) -> Fraction {
        Fraction { num: self.num as nat, den: self.den as nat }
    }
}

impl Ratio {
    /// Every `Ratio` that [`Ratio::new`] hands out is well formed.
    pub open spec fn wf(&self) -> bool {
        0 < self@.den <= u32::MAX && self@.num <= u32::MAX
    }

    /// `num / den`, or `None` where `den` is zero.
    pub fn new(num: u32, den: u32) -> (ratio: Option<Ratio>)
        ensures
            ratio is Some <==> den != 0,
            ratio matches Some(r) ==> r.wf() && r@.num == num && r@.den == den,
    {
        if den == 0 {
            None
        } else {
            Some(Ratio { num, den })
        }
    }

    /// The numerator.
    pub fn numerator(&self) -> (num: u32)
        ensures
            num == self@.num,
    {
        self.num
    }

    /// The denominator.
    pub fn denominator(&self) -> (den: u32)
        ensures
            den == self@.den,
    {
        self.den
    }
}

/// A mean absolute amplitude: the fraction `num / den`, at most
/// [`MAX_AMPLITUDE`], with `0 < den <= MAX_LEVEL_DEN`.
#[derive(Clone, Copy, Debug)]
pub struct Level {
    num: u64,
    den: u64,
}

impl View for Level {
    type V = Fraction;

    closed spec fn view(&self) -> Fraction {
        Fraction { num: self.num as nat, den: self.den as nat }
    }
}

impl Level {
    /// The bounds that make a fraction a level.
    pub open spec fn admits(num: nat, den: nat) -> bool {
        0 < den <= MAX_LEVEL_DEN && num <= MAX_AMPLITUDE * den
    }

    /// Every `Level` that this library hands out is well formed.
    pub open spec fn wf(&self) -> bool {
        Self::admits(self@.num, self@.den)
    }

    /// The level `num / den`, or `None` where the fraction is no level:
    /// `den` is zero or above [`MAX_LEVEL_DEN`], or the value is above
    /// [`MAX_AMPLITUDE`].
    pub fn new(num: u64, den: u64) -> (level: Option<Level>)
        ensures
            level is Some <==> Self::admits(num as nat, den as nat),
            level matches Some(l) ==> l.wf() && l@.num == num && l@.den == den,
    {
        if den == 0 || den > MAX_LEVEL_DEN {
            return None;
        }
        let bound: u64 = MAX_AMPLITUDE * den;
        if num > bound {
            None
        } else {
            Some(Level { num, den })
        }
    }

    /// The numerator.
    pub fn numerator(&self) -> (num: u64)
        ensures
            num == self@.num,
    {
        self.num
    }

    /// The denominator.
    pub fn denominator(&self) -> (den: u64)
        ensures
            den == self@.den,
    {
        self.den
    }
}

} // verus!
