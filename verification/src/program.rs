//! The editing session: a score, a cursor into it, and the edit
//! operations the host forwards input to.
//!
//! Every operation is total: edge cases (an empty slot, a marking kind
//! that does not support the edit, the end of the document) are
//! absorbed by no-op or auto-create policies rather than surfaced as
//! errors, so the interactive loop never stalls on user input.

use vstd::prelude::*;
use crate::fraction::{spec_whole_duration, whole_duration, Fraction};
use crate::marking::{Marking, MarkingV, Note, NoteV};
use crate::pitch::{reference_pitch, spec_reference_pitch, spec_step_down, spec_step_up, Pitch};
use crate::score::{
    chan_count, channel_at, cursor_wf, lemma_chan_uniform, lemma_marking_at_wf,
    lemma_new_measure_wf, lemma_push_marking_wf, lemma_update_marking_wf, marking_at,
    push_marking_v, score_wf, spec_left, spec_right, spec_set_first, update_marking_v, Cursor,
    Score, ScoreV,
};

verus! {

/// The score after a pitch step at the cursor.
///
/// A note-bearing marking has its first pitch replaced by the diatonic
/// neighbour one step above or below it; a note without pitch context
/// steps from the reference pitch instead.  An empty slot receives a
/// fresh whole note at the reference pitch (first-write-creates), and
/// any other marking ignores the operation.
pub open spec fn spec_step(s: ScoreV, c: Cursor, up: bool) -> ScoreV {
    match marking_at(s, c) {
        Some(m) => {
            if m.is_note_bearing() {
                let base = if m.note().pitches.len() == 0 {
                    spec_reference_pitch()
                } else {
                    m.note().pitches[0]
                };
                let stepped = if up {
                    spec_step_up(base)
                } else {
                    spec_step_down(base)
                };
                update_marking_v(
                    s,
                    c,
                    m.with_note(
                        NoteV {
                            pitches: spec_set_first(m.note().pitches, stepped),
                            duration: m.note().duration,
                        },
                    ),
                )
            } else {
                s
            }
        },
        None => push_marking_v(
            s,
            c,
            MarkingV::Note(
                NoteV { pitches: seq![spec_reference_pitch()], duration: spec_whole_duration() },
            ),
        ),
    }
}

/// The score after setting the duration at the cursor.
///
/// A note-bearing marking has its duration overwritten with `d`; an
/// empty slot receives a fresh note at the reference pitch with
/// duration `d`; any other marking ignores the operation.
pub open spec fn spec_set_dur(s: ScoreV, c: Cursor, d: Fraction) -> ScoreV {
    match marking_at(s, c) {
        Some(m) => {
            if m.is_note_bearing() {
                update_marking_v(
                    s,
                    c,
                    m.with_note(NoteV { pitches: m.note().pitches, duration: d }),
                )
            } else {
                s
            }
        },
        None => push_marking_v(
            s,
            c,
            MarkingV::Note(NoteV { pitches: seq![spec_reference_pitch()], duration: d }),
        ),
    }
}

/// The score after dotting the note at the cursor: a note-bearing
/// marking's duration becomes three halves of itself (when that still
/// fits the representation); everything else ignores the operation.
pub open spec fn spec_dotted(s: ScoreV, c: Cursor) -> ScoreV {
    match marking_at(s, c) {
        Some(m) => {
            if m.is_note_bearing() {
                update_marking_v(
                    s,
                    c,
                    m.with_note(
                        NoteV {
                            pitches: m.note().pitches,
                            duration: m.note().duration.spec_dotted(),
                        },
                    ),
                )
            } else {
                s
            }
        },
        None => s,
    }
}

/// The entire editing session: the score being edited and the cursor
/// addressing the selected marking slot.
pub struct Program {
    /// The document being edited.
    pub score: Score,
    /// The current cursor.
    pub cursor: Cursor,
}

impl Program {
    /// The session invariant: the score is structurally sound and the
    /// cursor addresses a marking slot or insertion point it really
    /// contains.
    pub open spec fn wf(self) -> bool {
        score_wf(self.score@) && cursor_wf(self.score@, self.cursor)
    }

    /// Creates a session on a minimal score, with the cursor at the
    /// first slot of the document.
    pub fn new() -> (p: Program)
        ensures
            p.wf(),
            p.score@ == Score::spec_initial(),
            p.cursor == (Cursor { movement: 0, measure: 0, chan: 0, marking: 0 }),
    {
        Program {
            score: Score::initial(),
            cursor: Cursor { movement: 0, measure: 0, chan: 0, marking: 0 },
        }
    }

    /// Moves the cursor back to the previous marking in document
    /// order.  At the very first marking of the document this is a
    /// no-op, so the operation is idempotent there.
    pub fn left(&mut self)
        requires
            old(self).wf(),
        ensures
            final(self).wf(),
            final(self).score == old(self).score,
            final(self).cursor == spec_left(old(self).score@, old(self).cursor),
    {
        let c = self.cursor;
        if c.marking > 0 {
            self.cursor = Cursor {
                movement: c.movement,
                measure: c.measure,
                chan: c.chan,
                marking: c.marking - 1,
            };
        } else if c.measure > 0 {
            proof {
                lemma_chan_uniform(self.score@, c.movement as int, c.measure as int);
                lemma_chan_uniform(self.score@, c.movement as int, c.measure - 1);
            }
            let prev = Cursor {
                movement: c.movement,
                measure: c.measure - 1,
                chan: c.chan,
                marking: 0,
            };
            let len = self.score.channel_len(prev);
            let mk = if len > 0 { len - 1 } else { 0 };
            self.cursor = Cursor {
                movement: c.movement,
                measure: c.measure - 1,
                chan: c.chan,
                marking: mk,
            };
        }
    }

    /// Moves the cursor forward to the next marking in document order.
    /// Past the last marking of the last existing measure this appends
    /// a new empty measure and leaves the cursor on its first slot, so
    /// moving right never fails and never stays put.
    pub fn right(&mut self)
        requires
            old(self).wf(),
        ensures
            final(self).wf(),
            final(self).score@ == spec_right(old(self).score@, old(self).cursor).0,
            final(self).cursor == spec_right(old(self).score@, old(self).cursor).1,
    {
        let c = self.cursor;
        let len = self.score.channel_len(c);
        if len > 0 && c.marking < len - 1 {
            self.cursor = Cursor {
                movement: c.movement,
                measure: c.measure,
                chan: c.chan,
                marking: c.marking + 1,
            };
        } else {
            let count = self.score.measure_count(c.movement);
            if c.measure + 1 >= count {
                proof {
                    lemma_new_measure_wf(self.score@, c.movement as int);
                }
                self.score.new_measure(c.movement);
            }
            self.cursor = Cursor {
                movement: c.movement,
                measure: c.measure + 1,
                chan: c.chan,
                marking: 0,
            };
            proof {
                lemma_chan_uniform(old(self).score@, c.movement as int, c.measure as int);
                lemma_chan_uniform(self.score@, c.movement as int, c.measure + 1);
            }
        }
    }

    /// Steps the selected note's first pitch one diatonic step up or
    /// down; creates a whole note at the reference pitch when the slot
    /// is empty; ignores non-note markings.
    fn move_step(&mut self, up: bool)
        requires
            old(self).wf(),
        ensures
            final(self).wf(),
            final(self).cursor == old(self).cursor,
            final(self).score@ == spec_step(old(self).score@, old(self).cursor, up),
    {
        let c = self.cursor;
        if self.score.has_marking(c) {
            proof {
                lemma_marking_at_wf(self.score@, c);
            }
            let ghost m = marking_at(self.score@, c)->Some_0;
            let mut base: Pitch = reference_pitch();
            let mut note_bearing: bool = false;
            match self.score.marking_ref(c).as_note() {
                Some(n) => {
                    note_bearing = true;
                    if n.pitches.len() > 0 {
                        base = n.pitches[0];
                    }
                },
                None => {},
            }
            if note_bearing {
                proof {
                    assert(m.note().pitches.len() > 0 ==> m.note().pitches[0].wf());
                }
                let stepped = if up {
                    base.step_up()
                } else {
                    base.step_down()
                };
                self.score.set_first_pitch(c, stepped);
                proof {
                    let n2 = NoteV {
                        pitches: spec_set_first(m.note().pitches, stepped),
                        duration: m.note().duration,
                    };
                    assert forall|i: int| 0 <= i < n2.pitches.len() implies
                        (#[trigger] n2.pitches[i]).wf() by {
                        if m.note().pitches.len() == 0 {
                            assert(n2.pitches == seq![stepped]);
                        } else if i != 0 {
                            assert(n2.pitches[i] == m.note().pitches[i]);
                        }
                    }
                    lemma_update_marking_wf(old(self).score@, c, m.with_note(n2));
                }
            }
        } else {
            let mut pitches: Vec<Pitch> = Vec::new();
            pitches.push(reference_pitch());
            let note = Note { pitches, duration: whole_duration() };
            let ghost mv = MarkingV::Note(
                NoteV { pitches: seq![spec_reference_pitch()], duration: spec_whole_duration() },
            );
            proof {
                assert(note@.pitches =~= seq![spec_reference_pitch()]);
                lemma_push_marking_wf(self.score@, c, mv);
            }
            self.score.push_marking(c, Marking::Note(note));
        }
    }

    /// Moves the selected note down one diatonic step within the key.
    pub fn down_step(&mut self)
        requires
            old(self).wf(),
        ensures
            final(self).wf(),
            final(self).cursor == old(self).cursor,
            final(self).score@ == spec_step(old(self).score@, old(self).cursor, false),
    {
        self.move_step(false);
    }

    /// Moves the selected note up one diatonic step within the key.
    pub fn up_step(&mut self)
        requires
            old(self).wf(),
        ensures
            final(self).wf(),
            final(self).cursor == old(self).cursor,
            final(self).score@ == spec_step(old(self).score@, old(self).cursor, true),
    {
        self.move_step(true);
    }

    /// Moves the selected note down a half step.  Per current policy
    /// this degrades to the same diatonic step as [`Self::down_step`];
    /// chromatic semantics remain an open design gap.
    pub fn down_half_step(&mut self)
        requires
            old(self).wf(),
        ensures
            final(self).wf(),
            final(self).cursor == old(self).cursor,
            final(self).score@ == spec_step(old(self).score@, old(self).cursor, false),
    {
        self.down_step();
    }

    /// Moves the selected note up a half step.  Per current policy
    /// this degrades to the same diatonic step as [`Self::up_step`].
    pub fn up_half_step(&mut self)
        requires
            old(self).wf(),
        ensures
            final(self).wf(),
            final(self).cursor == old(self).cursor,
            final(self).score@ == spec_step(old(self).score@, old(self).cursor, true),
    {
        self.up_step();
    }

    /// Moves the selected note down a quarter step.  Per current
    /// policy this degrades to the same diatonic step as
    /// [`Self::down_step`].
    pub fn down_quarter_step(&mut self)
        requires
            old(self).wf(),
        ensures
            final(self).wf(),
            final(self).cursor == old(self).cursor,
            final(self).score@ == spec_step(old(self).score@, old(self).cursor, false),
    {
        self.down_step();
    }

    /// Moves the selected note up a quarter step.  Per current policy
    /// this degrades to the same diatonic step as [`Self::up_step`].
    pub fn up_quarter_step(&mut self)
        requires
            old(self).wf(),
        ensures
            final(self).wf(),
            final(self).cursor == old(self).cursor,
            final(self).score@ == spec_step(old(self).score@, old(self).cursor, true),
    {
        self.up_step();
    }

    /// Sets the duration of the selected note; creates a note at the
    /// reference pitch with that duration when the slot is empty;
    /// ignores non-note markings.
    pub fn set_dur(&mut self, dur: Fraction)
        requires
            old(self).wf(),
            dur.wf(),
        ensures
            final(self).wf(),
            final(self).cursor == old(self).cursor,
            final(self).score@ == spec_set_dur(old(self).score@, old(self).cursor, dur),
    {
        let c = self.cursor;
        if self.score.has_marking(c) {
            proof {
                lemma_marking_at_wf(self.score@, c);
            }
            let ghost m = marking_at(self.score@, c)->Some_0;
            let note_bearing = self.score.marking_ref(c).is_note_bearing();
            if note_bearing {
                self.score.set_note_duration(c, dur);
                proof {
                    let n2 = NoteV { pitches: m.note().pitches, duration: dur };
                    lemma_update_marking_wf(old(self).score@, c, m.with_note(n2));
                }
            }
        } else {
            let mut pitches: Vec<Pitch> = Vec::new();
            pitches.push(reference_pitch());
            let note = Note { pitches, duration: dur };
            let ghost mv = MarkingV::Note(
                NoteV { pitches: seq![spec_reference_pitch()], duration: dur },
            );
            proof {
                assert(note@.pitches =~= seq![spec_reference_pitch()]);
                lemma_push_marking_wf(self.score@, c, mv);
            }
            self.score.push_marking(c, Marking::Note(note));
        }
    }

    /// Turns the selected note's duration into its dotted form (three
    /// halves of it); a no-op on empty slots and non-note markings.
    pub fn dotted(&mut self)
        requires
            old(self).wf(),
        ensures
            final(self).wf(),
            final(self).cursor == old(self).cursor,
            final(self).score@ == spec_dotted(old(self).score@, old(self).cursor),
    {
        let c = self.cursor;
        if self.score.has_marking(c) {
            proof {
                lemma_marking_at_wf(self.score@, c);
            }
            let ghost m = marking_at(self.score@, c)->Some_0;
            let mut dur: Option<Fraction> = None;
            match self.score.marking_ref(c).as_note() {
                Some(n) => {
                    dur = Some(n.duration);
                },
                None => {},
            }
            match dur {
                Some(d) => {
                    let d2 = d.dotted();
                    self.score.set_note_duration(c, d2);
                    proof {
                        let n2 = NoteV { pitches: m.note().pitches, duration: d2 };
                        lemma_update_marking_wf(old(self).score@, c, m.with_note(n2));
                    }
                },
                None => {},
            }
        }
    }

    /// Reserved tuplet entry point: deliberately leaves the session
    /// untouched in every case.
    pub fn tuplet(&mut self)
        requires
            old(self).wf(),
        ensures
            *final(self) == *old(self),
            final(self).wf(),
    {
    }
}

/// One edit, as sampled from a frame's input: the host queues these
/// while events arrive and drains the queue through
/// [`Program::apply`] once per frame, before that frame's re-render.
#[derive(Clone, Copy, PartialEq, Eq, Structural, Debug)]
pub enum EditCommand {
    /// Move the cursor to the previous marking.
    NavigateLeft,
    /// Move the cursor to the next marking.
    NavigateRight,
    /// Step the selected note up one diatonic step.
    StepUp,
    /// Step the selected note down one diatonic step.
    StepDown,
    /// Step up a half step (currently the same diatonic step).
    HalfStepUp,
    /// Step down a half step (currently the same diatonic step).
    HalfStepDown,
    /// Step up a quarter step (currently the same diatonic step).
    QuarterStepUp,
    /// Step down a quarter step (currently the same diatonic step).
    QuarterStepDown,
    /// Set the selected note's duration.
    SetDuration(Fraction),
    /// Dot the selected note's duration.
    Dotted,
    /// The reserved tuplet command: always a no-op.
    Tuplet,
}

/// The edit command a key press maps to, under the session's key
/// bindings.
///
/// Navigation sits on the home row, pitch steps on `j`/`k` with the
/// control and alt modifiers selecting half and quarter steps, the
/// digit row picks note lengths from a sixty-fourth up to a
/// quadruple-whole, and the period dots the note.  Any other press is
/// not an edit.
pub open spec fn spec_command_for_key(key: char, ctrl: bool, alt: bool) -> Option<
    EditCommand,
> {
    if key == 'h' {
        Some(EditCommand::NavigateLeft)
    } else if key == 'l' {
        Some(EditCommand::NavigateRight)
    } else if key == 'k' && ctrl {
        Some(EditCommand::HalfStepUp)
    } else if key == 'j' && ctrl {
        Some(EditCommand::HalfStepDown)
    } else if key == 'k' && alt {
        Some(EditCommand::QuarterStepUp)
    } else if key == 'j' && alt {
        Some(EditCommand::QuarterStepDown)
    } else if key == 'k' {
        Some(EditCommand::StepUp)
    } else if key == 'j' {
        Some(EditCommand::StepDown)
    } else if key == '1' {
        Some(EditCommand::SetDuration(Fraction { num: 1, den: 64 }))
    } else if key == '2' {
        Some(EditCommand::SetDuration(Fraction { num: 1, den: 32 }))
    } else if key == '3' {
        Some(EditCommand::SetDuration(Fraction { num: 1, den: 16 }))
    } else if key == '4' {
        Some(EditCommand::SetDuration(Fraction { num: 1, den: 8 }))
    } else if key == '5' {
        Some(EditCommand::SetDuration(Fraction { num: 1, den: 4 }))
    } else if key == '6' {
        Some(EditCommand::SetDuration(Fraction { num: 1, den: 2 }))
    } else if key == '7' {
        Some(EditCommand::SetDuration(Fraction { num: 1, den: 1 }))
    } else if key == '8' {
        Some(EditCommand::SetDuration(Fraction { num: 2, den: 1 }))
    } else if key == '9' {
        Some(EditCommand::SetDuration(Fraction { num: 4, den: 1 }))
    } else if key == '.' {
        Some(EditCommand::Dotted)
    } else {
        None
    }
}

/// Maps one key press, with its modifier state, to the edit command
/// it is bound to.  A duration produced here is always a well-formed
/// positive fraction, so it can be handed straight to
/// [`Program::apply`].
pub fn command_for_key(key: char, ctrl: bool, alt: bool) -> (r: Option<EditCommand>)
    ensures
        r == spec_command_for_key(key, ctrl, alt),
        r matches Some(EditCommand::SetDuration(d)) ==> d.wf(),
{
    match key {
        'h' => Some(EditCommand::NavigateLeft),
        'l' => Some(EditCommand::NavigateRight),
        'k' => {
            if ctrl {
                Some(EditCommand::HalfStepUp)
            } else if alt {
                Some(EditCommand::QuarterStepUp)
            } else {
                Some(EditCommand::StepUp)
            }
        },
        'j' => {
            if ctrl {
                Some(EditCommand::HalfStepDown)
            } else if alt {
                Some(EditCommand::QuarterStepDown)
            } else {
                Some(EditCommand::StepDown)
            }
        },
        '1' => Some(EditCommand::SetDuration(Fraction::new(1, 64))),
        '2' => Some(EditCommand::SetDuration(Fraction::new(1, 32))),
        '3' => Some(EditCommand::SetDuration(Fraction::new(1, 16))),
        '4' => Some(EditCommand::SetDuration(Fraction::new(1, 8))),
        '5' => Some(EditCommand::SetDuration(Fraction::new(1, 4))),
        '6' => Some(EditCommand::SetDuration(Fraction::new(1, 2))),
        '7' => Some(EditCommand::SetDuration(Fraction::new(1, 1))),
        '8' => Some(EditCommand::SetDuration(Fraction::new(2, 1))),
        '9' => Some(EditCommand::SetDuration(Fraction::new(4, 1))),
        '.' => Some(EditCommand::Dotted),
        _ => None,
    }
}

/// The document and cursor an edit command leads to.
pub open spec fn spec_apply(s: ScoreV, c: Cursor, cmd: EditCommand) -> (ScoreV, Cursor) {
    match cmd {
        EditCommand::NavigateLeft => (s, spec_left(s, c)),
        EditCommand::NavigateRight => spec_right(s, c),
        EditCommand::StepUp => (spec_step(s, c, true), c),
        EditCommand::StepDown => (spec_step(s, c, false), c),
        EditCommand::HalfStepUp => (spec_step(s, c, true), c),
        EditCommand::HalfStepDown => (spec_step(s, c, false), c),
        EditCommand::QuarterStepUp => (spec_step(s, c, true), c),
        EditCommand::QuarterStepDown => (spec_step(s, c, false), c),
        EditCommand::SetDuration(d) => (spec_set_dur(s, c, d), c),
        EditCommand::Dotted => (spec_dotted(s, c), c),
        EditCommand::Tuplet => (s, c),
    }
}

impl Program {
    /// Applies one queued edit command to the session.
    pub fn apply(&mut self, cmd: EditCommand)
        requires
            old(self).wf(),
            cmd matches EditCommand::SetDuration(d) ==> d.wf(),
        ensures
            final(self).wf(),
            final(self).score@ == spec_apply(old(self).score@, old(self).cursor, cmd).0,
            final(self).cursor == spec_apply(old(self).score@, old(self).cursor, cmd).1,
    {
        match cmd {
            EditCommand::NavigateLeft => self.left(),
            EditCommand::NavigateRight => self.right(),
            EditCommand::StepUp => self.up_step(),
            EditCommand::StepDown => self.down_step(),
            EditCommand::HalfStepUp => self.up_half_step(),
            EditCommand::HalfStepDown => self.down_half_step(),
            EditCommand::QuarterStepUp => self.up_quarter_step(),
            EditCommand::QuarterStepDown => self.down_quarter_step(),
            EditCommand::SetDuration(d) => self.set_dur(d),
            EditCommand::Dotted => self.dotted(),
            EditCommand::Tuplet => self.tuplet(),
        }
    }
}

/// A pitch step up followed immediately by a pitch step down on the
/// same note-bearing marking restores the document exactly, provided
/// the note already has a first pitch and that pitch is not the
/// saturating top one (where the upward step stalls and the round trip
/// cannot hold).
pub proof fn lemma_step_up_down_restores(s: ScoreV, c: Cursor)
    requires
        score_wf(s),
        marking_at(s, c) is Some,
        marking_at(s, c)->Some_0.is_note_bearing(),
        marking_at(s, c)->Some_0.note().pitches.len() >= 1,
        !marking_at(s, c)->Some_0.note().pitches[0].is_top(),
    ensures
        spec_step(spec_step(s, c, true), c, false) == s,
{
    let m = marking_at(s, c)->Some_0;
    lemma_marking_at_wf(s, c);
    let p0 = m.note().pitches[0];
    assert(p0.wf());
    let up = spec_step_up(p0);
    crate::pitch::lemma_step_round_trip(p0);
    let n1 = NoteV {
        pitches: spec_set_first(m.note().pitches, up),
        duration: m.note().duration,
    };
    let m1 = m.with_note(n1);
    assert forall|i: int| 0 <= i < n1.pitches.len() implies (#[trigger] n1.pitches[i]).wf() by {
        if i != 0 {
            assert(n1.pitches[i] == m.note().pitches[i]);
        }
    }
    lemma_update_marking_wf(s, c, m1);
    let s1 = spec_step(s, c, true);
    assert(s1 == update_marking_v(s, c, m1));
    assert(marking_at(s1, c) == Some(m1));
    assert(m1.is_note_bearing() && m1.note() == n1);
    assert(n1.pitches[0] == up);
    let n2 = NoteV {
        pitches: spec_set_first(n1.pitches, p0),
        duration: n1.duration,
    };
    let m2 = m1.with_note(n2);
    assert(spec_step(s1, c, false) == update_marking_v(s1, c, m2));
    assert(n2.pitches =~= m.note().pitches);
    assert(n2 == m.note());
    assert(m2 == m);
    assert(update_marking_v(s1, c, m2) =~~= s);
}

/// Setting a duration and then reading the marking's duration back
/// returns exactly the duration that was set, both on a note-bearing
/// marking and on an empty slot (where a fresh note is created).
pub proof fn lemma_set_dur_read_back(s: ScoreV, c: Cursor, d: Fraction)
    requires
        score_wf(s),
        cursor_wf(s, c),
        d.wf(),
        marking_at(s, c) matches Some(m) ==> m.is_note_bearing(),
    ensures
        marking_at(spec_set_dur(s, c, d), c) is Some,
        marking_at(spec_set_dur(s, c, d), c)->Some_0.is_note_bearing(),
        marking_at(spec_set_dur(s, c, d), c)->Some_0.note().duration == d,
{
    match marking_at(s, c) {
        Some(m) => {
            lemma_marking_at_wf(s, c);
            let m2 = m.with_note(NoteV { pitches: m.note().pitches, duration: d });
            lemma_update_marking_wf(s, c, m2);
        },
        None => {
            assert(c.marking == channel_at(s, c).len());
            let n = NoteV { pitches: seq![spec_reference_pitch()], duration: d };
            let m2 = MarkingV::Note(n);
            assert(n.pitches[0].wf());
            lemma_push_marking_wf(s, c, m2);
        },
    }
}

/// Any edit operation invoked while the cursor addresses a non-note
/// marking (a breath, a caesura, a repeat sign, ...) leaves the
/// document exactly unchanged.
pub proof fn lemma_non_note_edit_noop(s: ScoreV, c: Cursor, d: Fraction, up: bool)
    requires
        marking_at(s, c) is Some,
        !marking_at(s, c)->Some_0.is_note_bearing(),
    ensures
        spec_step(s, c, up) == s,
        spec_set_dur(s, c, d) == s,
        spec_dotted(s, c) == s,
{
}

impl Default for Program {
    /// Same as [`Program::new`]: a minimal score with the cursor on
    /// its first slot.
    fn default() -> (p: Program)
        ensures
            p.wf(),
            p.score@ == Score::spec_initial(),
            p.cursor == (Cursor { movement: 0, measure: 0, chan: 0, marking: 0 }),
    {
        Program::new()
    }
}

} // verus!
