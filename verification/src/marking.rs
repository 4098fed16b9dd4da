//! Markings: the polymorphic values occupying marking slots.
//!
//! A marking is one musical event or annotation.  Note-bearing variants
//! carry one or more pitches sharing one duration slot (a chord);
//! every other variant carries no editable pitch or duration, and the
//! edit operations deliberately ignore it.

use vstd::prelude::*;
use crate::fraction::Fraction;
use crate::pitch::Pitch;

verus! {

/// A dynamic level annotation.
#[derive(Clone, Copy, PartialEq, Eq, Structural, Debug)]
pub enum Dynamic {
    Pianissimo,
    Piano,
    MezzoPiano,
    MezzoForte,
    Forte,
    Fortissimo,
}

/// Zero or more pitches sounding together for one duration.  A note
/// with no pitches is a rest occupying the same kind of slot.
#[derive(Clone, PartialEq, Eq, Debug)]
pub struct Note {
    pub pitches: Vec<Pitch>,
    pub duration: Fraction,
}

/// Mathematical value of a [`Note`].
pub struct NoteV {
    pub pitches: Seq<Pitch>,
    pub duration: Fraction,
}

impl View for Note {
    type V = NoteV;

    open spec fn view(&self) -> NoteV {
        NoteV { pitches: self.pitches@, duration: self.duration }
    }
}

impl NoteV {
    /// A note is well formed when its duration is and all its pitches
    /// are.
    pub open spec fn wf(self) -> bool {
        &&& self.duration.wf()
        &&& forall|i: int| 0 <= i < self.pitches.len() ==> (#[trigger] self.pitches[i]).wf()
    }
}

impl Note {
    /// Overwrites the first pitch; a note with no pitches yet receives
    /// `p` as its only pitch.
    pub fn set_first(&mut self, p: Pitch)
        ensures
            final(self)@.duration == old(self)@.duration,
            final(self)@.pitches == (if old(self)@.pitches.len() == 0 {
                seq![p]
            } else {
                old(self)@.pitches.update(0, p)
            }),
    {
        if self.pitches.len() == 0 {
            self.pitches.push(p);
            proof {
                assert(self.pitches@ =~= seq![p]);
            }
        } else {
            self.pitches[0] = p;
        }
    }
}

/// One marking slot's value.
#[derive(Clone, PartialEq, Eq, Debug)]
pub enum Marking {
    /// A note or chord (or a rest, when it has no pitches).
    Note(Note),
    /// A grace note leading into the next marking.
    GraceInto(Note),
    /// A grace note leading out of the previous marking.
    GraceOutOf(Note),
    /// A dynamic level change.
    Dynamic(Dynamic),
    /// A breath mark.
    Breath,
    /// A short caesura.
    CaesuraShort,
    /// A long caesura.
    CaesuraLong,
    /// The start of a crescendo.
    Cresc,
    /// The start of a diminuendo.
    Dim,
    /// Switch to pizzicato.
    Pizz,
    /// Switch back to arco.
    Arco,
    /// Mute the instrument.
    Mute,
    /// Unmute the instrument.
    Open,
    /// A repeat sign.
    Repeat,
}

/// Mathematical value of a [`Marking`].
pub enum MarkingV {
    Note(NoteV),
    GraceInto(NoteV),
    GraceOutOf(NoteV),
    Dynamic(Dynamic),
    Breath,
    CaesuraShort,
    CaesuraLong,
    Cresc,
    Dim,
    Pizz,
    Arco,
    Mute,
    Open,
    Repeat,
}

impl View for Marking {
    type V = MarkingV;

    open spec fn view(&self) -> MarkingV {
        match self {
            Marking::Note(n) => MarkingV::Note(n@),
            Marking::GraceInto(n) => MarkingV::GraceInto(n@),
            Marking::GraceOutOf(n) => MarkingV::GraceOutOf(n@),
            Marking::Dynamic(d) => MarkingV::Dynamic(*d),
            Marking::Breath => MarkingV::Breath,
            Marking::CaesuraShort => MarkingV::CaesuraShort,
            Marking::CaesuraLong => MarkingV::CaesuraLong,
            Marking::Cresc => MarkingV::Cresc,
            Marking::Dim => MarkingV::Dim,
            Marking::Pizz => MarkingV::Pizz,
            Marking::Arco => MarkingV::Arco,
            Marking::Mute => MarkingV::Mute,
            Marking::Open => MarkingV::Open,
            Marking::Repeat => MarkingV::Repeat,
        }
    }
}

impl MarkingV {
    /// Whether pitch-step and duration-set operations apply to this
    /// marking.  Every other variant silently ignores them.
    pub open spec fn is_note_bearing(self) -> bool {
        self is Note || self is GraceInto || self is GraceOutOf
    }

    /// The note carried by a note-bearing marking.
    pub open spec fn note(self) -> NoteV
        recommends
            self.is_note_bearing(),
    {
        match self {
            MarkingV::Note(n) => n,
            MarkingV::GraceInto(n) => n,
            MarkingV::GraceOutOf(n) => n,
            _ => arbitrary(),
        }
    }

    /// The same kind of marking with its note replaced; non-note
    /// markings are returned unchanged.
    pub open spec fn with_note(self, n: NoteV) -> MarkingV {
        match self {
            MarkingV::Note(_) => MarkingV::Note(n),
            MarkingV::GraceInto(_) => MarkingV::GraceInto(n),
            MarkingV::GraceOutOf(_) => MarkingV::GraceOutOf(n),
            _ => self,
        }
    }

    /// A marking is well formed when its note, if any, is.
    pub open spec fn wf(self) -> bool {
        self.is_note_bearing() ==> self.note().wf()
    }
}

impl Marking {
    /// Whether pitch-step and duration-set operations apply to this
    /// marking.
    pub fn is_note_bearing(&self) -> (r: bool)
        ensures
            r == self@.is_note_bearing(),
    {
        matches!(self, Marking::Note(_) | Marking::GraceInto(_) | Marking::GraceOutOf(_))
    }

    /// The note carried by a note-bearing marking, if any.
    pub fn as_note(&self) -> (r: Option<&Note>)
        ensures
            match r {
                Some(n) => self@.is_note_bearing() && n@ == self@.note(),
                None => !self@.is_note_bearing(),
            },
    {
        match self {
            Marking::Note(n) => Some(n),
            Marking::GraceInto(n) => Some(n),
            Marking::GraceOutOf(n) => Some(n),
            _ => None,
        }
    }
}

} // verus!
