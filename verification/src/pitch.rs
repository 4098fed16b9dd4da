//! Pitches and diatonic steps.
//!
//! A pitch is a scale letter plus an octave number.  The governing key
//! is C major, so a diatonic step moves to the neighbouring letter,
//! crossing an octave boundary between B and C.

use vstd::prelude::*;

verus! {

/// Highest octave a pitch may use.
pub const MAX_OCTAVE: u8 = 9;

/// One of the seven scale letters of the governing key.
#[derive(Clone, Copy, PartialEq, Eq, Structural, Debug)]
pub enum PitchName {
    C,
    D,
    E,
    F,
    G,
    A,
    B,
}

/// A concrete pitch: scale letter and octave.
#[derive(Clone, Copy, PartialEq, Eq, Structural, Debug)]
pub struct Pitch {
    pub name: PitchName,
    pub octave: u8,
}

impl Pitch {
    /// A pitch is well formed when its octave is in range.
    pub open spec fn wf(self) -> bool {
        self.octave <= MAX_OCTAVE
    }

    /// Position of the letter within one octave of the scale (C is 0).
    pub open spec fn letter_index(self) -> int {
        match self.name {
            PitchName::C => 0,
            PitchName::D => 1,
            PitchName::E => 2,
            PitchName::F => 3,
            PitchName::G => 4,
            PitchName::A => 5,
            PitchName::B => 6,
        }
    }

    /// Absolute scale degree, counting diatonic steps from C0.
    pub open spec fn degree(self) -> int {
        self.octave * 7 + self.letter_index()
    }

    /// The highest representable pitch, at which an upward step stalls.
    pub open spec fn is_top(self) -> bool {
        self.name is B && self.octave == MAX_OCTAVE
    }

    /// The lowest representable pitch, at which a downward step stalls.
    pub open spec fn is_bottom(self) -> bool {
        self.name is C && self.octave == 0
    }
}

/// The default reference pitch, middle C, used whenever a note is
/// created or stepped without prior pitch context.
pub open spec fn spec_reference_pitch() -> Pitch {
    Pitch { name: PitchName::C, octave: 4 }
}

/// Returns the default reference pitch (middle C).
pub fn reference_pitch() -> (p: Pitch)
    ensures
        p == spec_reference_pitch(),
        p.wf(),
{
    Pitch { name: PitchName::C, octave: 4 }
}

/// The diatonic neighbour one scale step above `p`; the top pitch is
/// left unchanged so the operation is total.
pub open spec fn spec_step_up(p: Pitch) -> Pitch {
    if p.is_top() {
        p
    } else if p.name is B {
        Pitch { name: PitchName::C, octave: (p.octave + 1) as u8 }
    } else {
        Pitch { name: next_letter(p.name), octave: p.octave }
    }
}

/// The diatonic neighbour one scale step below `p`; the bottom pitch is
/// left unchanged so the operation is total.
pub open spec fn spec_step_down(p: Pitch) -> Pitch {
    if p.is_bottom() {
        p
    } else if p.name is C {
        Pitch { name: PitchName::B, octave: (p.octave - 1) as u8 }
    } else {
        Pitch { name: prev_letter(p.name), octave: p.octave }
    }
}

/// The letter one scale step up, within one octave (B has none here).
pub open spec fn next_letter(n: PitchName) -> PitchName {
    match n {
        PitchName::C => PitchName::D,
        PitchName::D => PitchName::E,
        PitchName::E => PitchName::F,
        PitchName::F => PitchName::G,
        PitchName::G => PitchName::A,
        PitchName::A => PitchName::B,
        PitchName::B => PitchName::C,
    }
}

/// The letter one scale step down, within one octave (C has none here).
pub open spec fn prev_letter(n: PitchName) -> PitchName {
    match n {
        PitchName::C => PitchName::B,
        PitchName::D => PitchName::C,
        PitchName::E => PitchName::D,
        PitchName::F => PitchName::E,
        PitchName::G => PitchName::F,
        PitchName::A => PitchName::G,
        PitchName::B => PitchName::A,
    }
}

impl Pitch {
    /// Moves this pitch one diatonic step up, saturating at the top.
    pub fn step_up(self) -> (r: Pitch)
        requires
            self.wf(),
        ensures
            r == spec_step_up(self),
            r.wf(),
    {
        if matches!(self.name, PitchName::B) {
            if self.octave == MAX_OCTAVE {
                self
            } else {
                Pitch { name: PitchName::C, octave: self.octave + 1 }
            }
        } else {
            let name = match self.name {
                PitchName::C => PitchName::D,
                PitchName::D => PitchName::E,
                PitchName::E => PitchName::F,
                PitchName::F => PitchName::G,
                PitchName::G => PitchName::A,
                PitchName::A => PitchName::B,
                PitchName::B => PitchName::C,
            };
            Pitch { name, octave: self.octave }
        }
    }

    /// Moves this pitch one diatonic step down, saturating at the bottom.
    pub fn step_down(self) -> (r: Pitch)
        requires
            self.wf(),
        ensures
            r == spec_step_down(self),
            r.wf(),
    {
        if matches!(self.name, PitchName::C) {
            if self.octave == 0 {
                self
            } else {
                Pitch { name: PitchName::B, octave: self.octave - 1 }
            }
        } else {
            let name = match self.name {
                PitchName::C => PitchName::B,
                PitchName::D => PitchName::C,
                PitchName::E => PitchName::D,
                PitchName::F => PitchName::E,
                PitchName::G => PitchName::F,
                PitchName::A => PitchName::G,
                PitchName::B => PitchName::A,
            };
            Pitch { name, octave: self.octave }
        }
    }
}

/// A step up followed by a step down restores the original pitch, as
/// long as the pitch is not the saturating top one.
pub proof fn lemma_step_round_trip(p: Pitch)
    requires
        p.wf(),
        !p.is_top(),
    ensures
        spec_step_down(spec_step_up(p)) == p,
{
}

/// An upward step strictly raises the scale degree except at the top.
pub proof fn lemma_step_up_raises(p: Pitch)
    requires
        p.wf(),
        !p.is_top(),
    ensures
        spec_step_up(p).degree() == p.degree() + 1,
{
}

/// A downward step strictly lowers the scale degree except at the
/// bottom.
pub proof fn lemma_step_down_lowers(p: Pitch)
    requires
        p.wf(),
        !p.is_bottom(),
    ensures
        spec_step_down(p).degree() == p.degree() - 1,
{
}

} // verus!
