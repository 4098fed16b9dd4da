//! Positive rational durations.
//!
//! A duration is a positive fraction of a whole note, stored exactly as
//! the numerator and denominator it was written with (no implicit
//! reduction, so reading a duration back returns the value that was
//! set).

use vstd::prelude::*;

verus! {

/// A positive rational number, `num / den`.
#[derive(Clone, Copy, PartialEq, Eq, Structural, Debug)]
pub struct Fraction {
    pub num: u32,
    pub den: u32,
}

impl Fraction {
    /// A duration is well formed when it is a positive rational.
    pub open spec fn wf(self) -> bool {
        self.num >= 1 && self.den >= 1
    }

    /// Builds the fraction `num / den`.
    pub fn new(num: u32, den: u32) -> (r: Fraction)
        requires
            num >= 1,
            den >= 1,
        ensures
            r == (Fraction { num, den }),
            r.wf(),
    {
        Fraction { num, den }
    }

    /// Whether the dotted form (three halves of this duration) still
    /// fits the representation.
    pub open spec fn can_dot(self) -> bool {
        self.num * 3 <= u32::MAX && self.den * 2 <= u32::MAX
    }

    /// The dotted form of this duration: three halves of it, left
    /// unchanged when the result would not fit the representation.
    pub open spec fn spec_dotted(self) -> Fraction {
        if self.can_dot() {
            Fraction { num: (self.num * 3) as u32, den: (self.den * 2) as u32 }
        } else {
            self
        }
    }

    /// Multiplies this duration by three halves (standard dotted-note
    /// semantics), leaving it unchanged when the result would overflow.
    pub fn dotted(self) -> (r: Fraction)
        requires
            self.wf(),
        ensures
            r == self.spec_dotted(),
            r.wf(),
    {
        if self.num <= u32::MAX / 3 && self.den <= u32::MAX / 2 {
            Fraction { num: self.num * 3, den: self.den * 2 }
        } else {
            self
        }
    }

}

/// A whole-note duration, used when a note is created without an
/// explicit duration.
pub open spec fn spec_whole_duration() -> Fraction {
    Fraction { num: 1, den: 1 }
}

/// Returns the whole-note duration.
pub fn whole_duration() -> (r: Fraction)
    ensures
        r == spec_whole_duration(),
        r.wf(),
{
    Fraction { num: 1, den: 1 }
}

/// Dotting preserves the rational meaning: the dotted form of `f`
/// equals three halves of `f` as a rational, whenever it fits.
pub proof fn lemma_dotted_value(f: Fraction)
    requires
        f.wf(),
        f.can_dot(),
    ensures
        f.spec_dotted().num * (2 * f.den) == (3 * f.num) * f.spec_dotted().den,
{
}

} // verus!
