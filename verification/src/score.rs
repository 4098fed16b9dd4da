//! The score document and the cursor that addresses it.
//!
//! A score is a hierarchy: movement, measure, channel, marking.  A
//! cursor is an ordered address `(movement, measure, chan, marking)`
//! into that hierarchy; it always denotes either an existing marking
//! slot or the end-of-measure insertion point, never a location the
//! document does not contain.
//!
//! Within one movement every measure has the same number of channels,
//! so a cursor that is valid in one measure stays valid when it moves
//! to a neighbouring one.

use vstd::prelude::*;
use crate::fraction::Fraction;
use crate::marking::{Marking, MarkingV, Note, NoteV};
use crate::pitch::Pitch;

verus! {

/// One parallel voice within a measure: a run of marking slots.
#[derive(Clone, PartialEq, Eq, Debug)]
pub struct Channel {
    pub markings: Vec<Marking>,
}

/// A fixed-duration container of markings across one or more channels.
#[derive(Clone, PartialEq, Eq, Debug)]
pub struct Measure {
    pub channels: Vec<Channel>,
}

/// A linear sequence of measures.
#[derive(Clone, PartialEq, Eq, Debug)]
pub struct Movement {
    pub measures: Vec<Measure>,
}

/// A whole score document: one or more movements.
#[derive(Clone, PartialEq, Eq, Debug)]
pub struct Score {
    pub movements: Vec<Movement>,
}

/// Mathematical value of a [`Channel`].
pub type ChannelV = Seq<MarkingV>;

/// Mathematical value of a [`Measure`].
pub type MeasureV = Seq<ChannelV>;

/// Mathematical value of a [`Movement`].
pub type MovementV = Seq<MeasureV>;

/// Mathematical value of a [`Score`].
pub type ScoreV = Seq<MovementV>;

impl View for Channel {
    type V = ChannelV;

    open spec fn view(&self) -> ChannelV {
        self.markings@.map_values(|m: Marking| m@)
    }
}

impl View for Measure {
    type V = MeasureV;

    open spec fn view(&self) -> MeasureV {
        self.channels@.map_values(|c: Channel| c@)
    }
}

impl View for Movement {
    type V = MovementV;

    open spec fn view(&self) -> MovementV {
        self.measures@.map_values(|m: Measure| m@)
    }
}

impl View for Score {
    type V = ScoreV;

    open spec fn view(&self) -> ScoreV {
        self.movements@.map_values(|m: Movement| m@)
    }
}

/// Every marking of the channel is well formed.
pub open spec fn channel_wf(ch: ChannelV) -> bool {
    forall|k: int| 0 <= k < ch.len() ==> (#[trigger] ch[k]).wf()
}

/// Every channel of the measure is well formed.
pub open spec fn measure_wf(me: MeasureV) -> bool {
    forall|j: int| 0 <= j < me.len() ==> channel_wf(#[trigger] me[j])
}

/// The movement has at least one measure, all measures share one
/// positive channel count, and their contents are well formed.
pub open spec fn movement_wf(mv: MovementV) -> bool {
    &&& mv.len() >= 1
    &&& mv[0].len() >= 1
    &&& forall|i: int| 0 <= i < mv.len() ==> (#[trigger] mv[i]).len() == mv[0].len()
    &&& forall|i: int| 0 <= i < mv.len() ==> measure_wf(#[trigger] mv[i])
}

/// The score has at least one movement and every movement is well
/// formed.
pub open spec fn score_wf(s: ScoreV) -> bool {
    &&& s.len() >= 1
    &&& forall|i: int| 0 <= i < s.len() ==> movement_wf(#[trigger] s[i])
}

/// The channel count shared by every measure of the movement.
pub open spec fn chan_count(s: ScoreV, movement: int) -> int {
    s[movement][0].len() as int
}

/// A measure of `chans` empty channels.
pub open spec fn empty_measure(chans: int) -> MeasureV {
    Seq::new(chans as nat, |i: int| Seq::<MarkingV>::empty())
}

/// The hierarchical address of the selected marking slot.
#[derive(Clone, Copy, PartialEq, Eq, Structural, Debug)]
pub struct Cursor {
    pub movement: usize,
    pub measure: usize,
    pub chan: usize,
    pub marking: usize,
}

impl Cursor {
    /// Builds a cursor from its four indices.
    pub fn new(movement: usize, measure: usize, chan: usize, marking: usize) -> (c: Cursor)
        ensures
            c == (Cursor { movement, measure, chan, marking }),
    {
        Cursor { movement, measure, chan, marking }
    }

    /// Whether the cursor addresses the very first marking slot of the
    /// document order within its movement and channel.
    pub open spec fn at_start(self) -> bool {
        self.measure == 0 && self.marking == 0
    }
}

/// The channel the cursor points into.
pub open spec fn channel_at(s: ScoreV, c: Cursor) -> ChannelV {
    s[c.movement as int][c.measure as int][c.chan as int]
}

/// The cursor addresses an existing marking slot or the insertion
/// point one past the channel's last marking.
pub open spec fn cursor_wf(s: ScoreV, c: Cursor) -> bool {
    &&& c.movement < s.len()
    &&& c.measure < s[c.movement as int].len()
    &&& c.chan < s[c.movement as int][c.measure as int].len()
    &&& c.marking <= channel_at(s, c).len()
}

/// The marking under the cursor, if the cursor addresses an existing
/// marking rather than the end-of-measure insertion point.
pub open spec fn marking_at(s: ScoreV, c: Cursor) -> Option<MarkingV> {
    if c.movement < s.len() && c.measure < s[c.movement as int].len()
        && c.chan < s[c.movement as int][c.measure as int].len()
        && c.marking < channel_at(s, c).len() {
        Some(channel_at(s, c)[c.marking as int])
    } else {
        None
    }
}

/// The score with the marking under the cursor replaced by `m`.
pub open spec fn update_marking_v(s: ScoreV, c: Cursor, m: MarkingV) -> ScoreV {
    let mv = c.movement as int;
    let me = c.measure as int;
    let ch = c.chan as int;
    let mk = c.marking as int;
    s.update(mv, s[mv].update(me, s[mv][me].update(ch, s[mv][me][ch].update(mk, m))))
}

/// The score with `m` appended to the channel under the cursor.
pub open spec fn push_marking_v(s: ScoreV, c: Cursor, m: MarkingV) -> ScoreV {
    let mv = c.movement as int;
    let me = c.measure as int;
    let ch = c.chan as int;
    s.update(mv, s[mv].update(me, s[mv][me].update(ch, s[mv][me][ch].push(m))))
}

/// Where the cursor lands when it moves to the previous marking in
/// document order.  Navigation stays within the cursor's movement and
/// channel; at the first marking of the document this is the cursor
/// itself, so navigating left there is a no-op.
pub open spec fn spec_left(s: ScoreV, c: Cursor) -> Cursor {
    if c.marking > 0 {
        Cursor { movement: c.movement, measure: c.measure, chan: c.chan, marking: (c.marking - 1) as usize }
    } else if c.measure > 0 {
        let prev = s[c.movement as int][c.measure - 1][c.chan as int];
        let mk = if prev.len() > 0 { (prev.len() - 1) as usize } else { 0usize };
        Cursor { movement: c.movement, measure: (c.measure - 1) as usize, chan: c.chan, marking: mk }
    } else {
        c
    }
}

/// Where the document and the cursor land when the cursor moves to the
/// next marking in document order.  Navigation stays within the
/// cursor's movement and channel; past the last marking of the
/// movement's last existing measure a new empty measure is appended,
/// so the cursor never comes to rest on a location the document lacks.
pub open spec fn spec_right(s: ScoreV, c: Cursor) -> (ScoreV, Cursor) {
    let mv = c.movement as int;
    let len = channel_at(s, c).len();
    if c.marking + 1 < len {
        (s, Cursor { movement: c.movement, measure: c.measure, chan: c.chan, marking: (c.marking + 1) as usize })
    } else {
        let c2 = Cursor { movement: c.movement, measure: (c.measure + 1) as usize, chan: c.chan, marking: 0 };
        if c.measure + 1 < s[mv].len() {
            (s, c2)
        } else {
            (s.update(mv, s[mv].push(empty_measure(chan_count(s, mv)))), c2)
        }
    }
}

/// The cursor rests at or past the last marking of its movement's
/// last existing measure: one more step right must append a measure.
pub open spec fn at_document_end(s: ScoreV, c: Cursor) -> bool {
    &&& c.measure + 1 == s[c.movement as int].len()
    &&& c.marking + 1 >= channel_at(s, c).len()
}

/// Navigating left at the very first marking of the document moves
/// nowhere, so repeating it changes nothing: the operation is
/// idempotent there.
pub proof fn lemma_left_at_start_noop(s: ScoreV, c: Cursor)
    requires
        c.at_start(),
    ensures
        spec_left(s, c) == c,
        spec_left(s, spec_left(s, c)) == spec_left(s, c),
{
}

/// One step right past the end of the document appends exactly one
/// new, empty measure, keeps every existing measure, and leaves the
/// cursor on the new measure's first slot — which is again the end of
/// the document.
pub proof fn lemma_right_at_end_appends(s: ScoreV, c: Cursor)
    requires
        score_wf(s),
        cursor_wf(s, c),
        at_document_end(s, c),
        s[c.movement as int].len() <= usize::MAX,
    ensures
        spec_right(s, c).0.len() == s.len(),
        spec_right(s, c).0[c.movement as int].len() == s[c.movement as int].len() + 1,
        forall|i: int| 0 <= i < s[c.movement as int].len()
            ==> spec_right(s, c).0[c.movement as int][i] == s[c.movement as int][i],
        forall|i: int| 0 <= i < s.len() && i != c.movement as int
            ==> spec_right(s, c).0[i] == s[i],
        score_wf(spec_right(s, c).0),
        cursor_wf(spec_right(s, c).0, spec_right(s, c).1),
        at_document_end(spec_right(s, c).0, spec_right(s, c).1),
        spec_right(s, c).1 == (Cursor {
            movement: c.movement,
            measure: (c.measure + 1) as usize,
            chan: c.chan,
            marking: 0,
        }),
        channel_at(spec_right(s, c).0, spec_right(s, c).1).len() == 0,
{
    let mv = c.movement as int;
    let s2 = spec_right(s, c).0;
    let c2 = spec_right(s, c).1;
    lemma_chan_uniform(s, mv, c.measure as int);
    lemma_new_measure_wf(s, mv);
    assert(s2 == s.update(mv, s[mv].push(empty_measure(chan_count(s, mv)))));
    assert(s2[mv][c2.measure as int] == empty_measure(chan_count(s, mv)));
    assert(channel_at(s2, c2) =~= Seq::<MarkingV>::empty());
}

/// `n` navigate-right steps, folded into one function of the document
/// and the cursor.
pub open spec fn spec_right_n(s: ScoreV, c: Cursor, n: nat) -> (ScoreV, Cursor)
    decreases n,
{
    if n == 0 {
        (s, c)
    } else {
        let once = spec_right(s, c);
        spec_right_n(once.0, once.1, (n - 1) as nat)
    }
}

/// Repeating navigate-right `n` times past the end of the document
/// grows the movement by exactly `n` new measures — one per step, each
/// at its own fresh index — and walks the cursor through them.
pub proof fn lemma_right_past_end_grows(s: ScoreV, c: Cursor, n: nat)
    requires
        score_wf(s),
        cursor_wf(s, c),
        at_document_end(s, c),
        s[c.movement as int].len() + n <= usize::MAX,
    ensures
        spec_right_n(s, c, n).0.len() == s.len(),
        spec_right_n(s, c, n).0[c.movement as int].len() == s[c.movement as int].len() + n,
        score_wf(spec_right_n(s, c, n).0),
        cursor_wf(spec_right_n(s, c, n).0, spec_right_n(s, c, n).1),
        at_document_end(spec_right_n(s, c, n).0, spec_right_n(s, c, n).1),
        spec_right_n(s, c, n).1.movement == c.movement,
        spec_right_n(s, c, n).1.chan == c.chan,
        spec_right_n(s, c, n).1.measure == c.measure + n,
    decreases n,
{
    if n > 0 {
        lemma_right_at_end_appends(s, c);
        let once = spec_right(s, c);
        lemma_right_past_end_grows(once.0, once.1, (n - 1) as nat);
    }
}

impl Score {
    /// A minimal score: one movement holding one measure of one empty
    /// channel.
    pub open spec fn spec_initial() -> ScoreV {
        seq![seq![empty_measure(1)]]
    }

    /// Builds the minimal score.
    pub fn initial() -> (s: Score)
        ensures
            s@ == Score::spec_initial(),
            score_wf(s@),
    {
        let channel = Channel { markings: Vec::new() };
        let mut channels: Vec<Channel> = Vec::new();
        channels.push(channel);
        let measure = Measure { channels };
        let mut measures: Vec<Measure> = Vec::new();
        measures.push(measure);
        let movement = Movement { measures };
        let mut movements: Vec<Movement> = Vec::new();
        movements.push(movement);
        let s = Score { movements };
        proof {
            assert(s@ =~~= Score::spec_initial());
            assert forall|i: int| 0 <= i < s@.len() implies movement_wf(#[trigger] s@[i]) by {
                assert(s@[0] =~~= seq![empty_measure(1)]);
            }
        }
        s
    }

    /// Number of measures in the given movement.
    pub fn measure_count(&self, movement: usize) -> (n: usize)
        requires
            movement < self@.len(),
        ensures
            n == self@[movement as int].len(),
    {
        self.movements[movement].measures.len()
    }

    /// Number of markings in the channel the cursor points into.
    pub fn channel_len(&self, c: Cursor) -> (n: usize)
        requires
            c.movement < self@.len(),
            c.measure < self@[c.movement as int].len(),
            c.chan < self@[c.movement as int][c.measure as int].len(),
        ensures
            n == channel_at(self@, c).len(),
    {
        self.movements[c.movement].measures[c.measure].channels[c.chan].markings.len()
    }

    /// Whether the cursor addresses an existing marking (rather than
    /// the end-of-measure insertion point).
    pub fn has_marking(&self, c: Cursor) -> (r: bool)
        requires
            cursor_wf(self@, c),
        ensures
            r == (marking_at(self@, c) is Some),
    {
        let len = self.channel_len(c);
        c.marking < len
    }

    /// A reference to the marking under the cursor.
    pub fn marking_ref(&self, c: Cursor) -> (r: &Marking)
        requires
            marking_at(self@, c) is Some,
        ensures
            r@ == marking_at(self@, c)->Some_0,
    {
        &self.movements[c.movement].measures[c.measure].channels[c.chan].markings[c.marking]
    }

    /// Overwrites the duration of the note-bearing marking under the
    /// cursor, keeping its pitches and its kind.
    pub fn set_note_duration(&mut self, c: Cursor, d: Fraction)
        requires
            marking_at(old(self)@, c) is Some,
            marking_at(old(self)@, c)->Some_0.is_note_bearing(),
        ensures
            final(self)@ == update_marking_v(
                old(self)@,
                c,
                marking_at(old(self)@, c)->Some_0.with_note(
                    NoteV {
                        pitches: marking_at(old(self)@, c)->Some_0.note().pitches,
                        duration: d,
                    },
                ),
            ),
    {
        let mark = &mut self.movements[c.movement].measures[c.measure].channels[c.chan].markings[c.marking];
        match mark {
            Marking::Note(n) => n.duration = d,
            Marking::GraceInto(n) => n.duration = d,
            Marking::GraceOutOf(n) => n.duration = d,
            _ => {},
        }
        proof {
            assert(self@ =~~= update_marking_v(
                old(self)@,
                c,
                marking_at(old(self)@, c)->Some_0.with_note(
                    NoteV {
                        pitches: marking_at(old(self)@, c)->Some_0.note().pitches,
                        duration: d,
                    },
                ),
            ));
        }
    }

    /// Overwrites the first pitch of the note-bearing marking under
    /// the cursor; a note with no pitches yet receives `p` as its only
    /// pitch.
    pub fn set_first_pitch(&mut self, c: Cursor, p: Pitch)
        requires
            marking_at(old(self)@, c) is Some,
            marking_at(old(self)@, c)->Some_0.is_note_bearing(),
        ensures
            final(self)@ == update_marking_v(
                old(self)@,
                c,
                marking_at(old(self)@, c)->Some_0.with_note(
                    NoteV {
                        pitches: spec_set_first(marking_at(old(self)@, c)->Some_0.note().pitches, p),
                        duration: marking_at(old(self)@, c)->Some_0.note().duration,
                    },
                ),
            ),
    {
        let mark = &mut self.movements[c.movement].measures[c.measure].channels[c.chan].markings[c.marking];
        match mark {
            Marking::Note(n) => n.set_first(p),
            Marking::GraceInto(n) => n.set_first(p),
            Marking::GraceOutOf(n) => n.set_first(p),
            _ => {},
        }
        proof {
            assert(self@ =~~= update_marking_v(
                old(self)@,
                c,
                marking_at(old(self)@, c)->Some_0.with_note(
                    NoteV {
                        pitches: spec_set_first(marking_at(old(self)@, c)->Some_0.note().pitches, p),
                        duration: marking_at(old(self)@, c)->Some_0.note().duration,
                    },
                ),
            ));
        }
    }

    /// Appends a marking at the end of the channel under the cursor.
    pub fn push_marking(&mut self, c: Cursor, m: Marking)
        requires
            c.movement < old(self)@.len(),
            c.measure < old(self)@[c.movement as int].len(),
            c.chan < old(self)@[c.movement as int][c.measure as int].len(),
        ensures
            final(self)@ == push_marking_v(old(self)@, c, m@),
    {
        let ghost mv = m@;
        self.movements[c.movement].measures[c.measure].channels[c.chan].markings.push(m);
        proof {
            assert(self@ =~~= push_marking_v(old(self)@, c, mv));
        }
    }

    /// Appends a new empty measure, with the movement's shared channel
    /// count, after the movement's last measure.
    pub fn new_measure(&mut self, movement: usize)
        requires
            movement < old(self)@.len(),
            old(self)@[movement as int].len() >= 1,
        ensures
            final(self)@ == old(self)@.update(
                movement as int,
                old(self)@[movement as int].push(empty_measure(chan_count(old(self)@, movement as int))),
            ),
    {
        let n = self.movements[movement].measures[0].channels.len();
        let mut channels: Vec<Channel> = Vec::new();
        while channels.len() < n
            invariant
                channels@.len() <= n,
                forall|j: int| 0 <= j < channels@.len()
                    ==> (#[trigger] channels@[j]).markings@.len() == 0,
            decreases n - channels.len(),
        {
            channels.push(Channel { markings: Vec::new() });
        }
        let m = Measure { channels };
        proof {
            assert(m@ =~~= empty_measure(n as int));
        }
        self.movements[movement].measures.push(m);
        proof {
            assert(self@ =~~= old(self)@.update(
                movement as int,
                old(self)@[movement as int].push(empty_measure(chan_count(old(self)@, movement as int))),
            ));
        }
    }
}

/// The pitch run with its first element overwritten; an empty run
/// receives the pitch as its only element.
pub open spec fn spec_set_first(pitches: Seq<Pitch>, p: Pitch) -> Seq<Pitch> {
    if pitches.len() == 0 {
        seq![p]
    } else {
        pitches.update(0, p)
    }
}

/// In a well-formed score the marking under the cursor, when there is
/// one, is itself well formed.
pub proof fn lemma_marking_at_wf(s: ScoreV, c: Cursor)
    requires
        score_wf(s),
        marking_at(s, c) is Some,
    ensures
        marking_at(s, c)->Some_0.wf(),
{
    assert(movement_wf(s[c.movement as int]));
    assert(measure_wf(s[c.movement as int][c.measure as int]));
    assert(channel_wf(channel_at(s, c)));
}

/// Every measure of a well-formed movement shares the movement's
/// channel count.
pub proof fn lemma_chan_uniform(s: ScoreV, movement: int, measure: int)
    requires
        score_wf(s),
        0 <= movement < s.len(),
        0 <= measure < s[movement].len(),
    ensures
        s[movement][measure].len() == chan_count(s, movement),
        chan_count(s, movement) >= 1,
{
    assert(movement_wf(s[movement]));
}

/// Replacing a marking with a well-formed one preserves every
/// structural invariant, and the cursor still addresses the new
/// marking.
pub proof fn lemma_update_marking_wf(s: ScoreV, c: Cursor, m: MarkingV)
    requires
        score_wf(s),
        marking_at(s, c) is Some,
        m.wf(),
    ensures
        score_wf(update_marking_v(s, c, m)),
        cursor_wf(update_marking_v(s, c, m), c),
        marking_at(update_marking_v(s, c, m), c) == Some(m),
{
    let s2 = update_marking_v(s, c, m);
    let cm = c.movement as int;
    let ce = c.measure as int;
    let cc = c.chan as int;
    assert forall|i: int| 0 <= i < s2.len() implies movement_wf(#[trigger] s2[i]) by {
        if i == cm {
            let mv = s[i];
            let mv2 = s2[i];
            assert(mv2.len() == mv.len());
            assert forall|j: int| 0 <= j < mv2.len() implies (#[trigger] mv2[j]).len() == mv2[0].len() by {
                assert(mv[j].len() == mv[0].len());
                assert(mv2[j].len() == mv[j].len());
                assert(mv2[0].len() == mv[0].len());
            }
            assert forall|j: int| 0 <= j < mv2.len() implies measure_wf(#[trigger] mv2[j]) by {
                assert(measure_wf(mv[j]));
                if j == ce {
                    let me = mv[j];
                    let me2 = mv2[j];
                    assert forall|k: int| 0 <= k < me2.len() implies channel_wf(#[trigger] me2[k]) by {
                        assert(channel_wf(me[k]));
                        if k == cc {
                            let ch = me[k];
                            let ch2 = me2[k];
                            assert forall|l: int| 0 <= l < ch2.len() implies (#[trigger] ch2[l]).wf() by {
                                if l != c.marking as int {
                                    assert(ch2[l] == ch[l]);
                                }
                            }
                        } else {
                            assert(me2[k] == me[k]);
                        }
                    }
                } else {
                    assert(mv2[j] == mv[j]);
                }
            }
            assert(mv2[0].len() == mv[0].len());
        } else {
            assert(s2[i] == s[i]);
        }
    }
}

/// Appending a well-formed marking at the cursor's channel preserves
/// every structural invariant and keeps the cursor valid.
pub proof fn lemma_push_marking_wf(s: ScoreV, c: Cursor, m: MarkingV)
    requires
        score_wf(s),
        cursor_wf(s, c),
        m.wf(),
    ensures
        score_wf(push_marking_v(s, c, m)),
        cursor_wf(push_marking_v(s, c, m), c),
        c.marking == channel_at(s, c).len() ==> marking_at(push_marking_v(s, c, m), c) == Some(m),
{
    let s2 = push_marking_v(s, c, m);
    let cm = c.movement as int;
    let ce = c.measure as int;
    let cc = c.chan as int;
    assert forall|i: int| 0 <= i < s2.len() implies movement_wf(#[trigger] s2[i]) by {
        if i == cm {
            let mv = s[i];
            let mv2 = s2[i];
            assert(mv2.len() == mv.len());
            assert forall|j: int| 0 <= j < mv2.len() implies (#[trigger] mv2[j]).len() == mv2[0].len() by {
                assert(mv[j].len() == mv[0].len());
                assert(mv2[j].len() == mv[j].len());
                assert(mv2[0].len() == mv[0].len());
            }
            assert forall|j: int| 0 <= j < mv2.len() implies measure_wf(#[trigger] mv2[j]) by {
                assert(measure_wf(mv[j]));
                if j == ce {
                    let me = mv[j];
                    let me2 = mv2[j];
                    assert forall|k: int| 0 <= k < me2.len() implies channel_wf(#[trigger] me2[k]) by {
                        assert(channel_wf(me[k]));
                        if k == cc {
                            let ch = me[k];
                            let ch2 = me2[k];
                            assert forall|l: int| 0 <= l < ch2.len() implies (#[trigger] ch2[l]).wf() by {
                                if l != ch.len() {
                                    assert(ch2[l] == ch[l]);
                                }
                            }
                        } else {
                            assert(me2[k] == me[k]);
                        }
                    }
                } else {
                    assert(mv2[j] == mv[j]);
                }
            }
            assert(mv2[0].len() == mv[0].len());
        } else {
            assert(s2[i] == s[i]);
        }
    }
}

/// Appending an empty measure to a movement preserves every structural
/// invariant.
pub proof fn lemma_new_measure_wf(s: ScoreV, movement: int)
    requires
        score_wf(s),
        0 <= movement < s.len(),
    ensures
        score_wf(s.update(movement, s[movement].push(empty_measure(chan_count(s, movement))))),
{
    let s2 = s.update(movement, s[movement].push(empty_measure(chan_count(s, movement))));
    assert forall|i: int| 0 <= i < s2.len() implies movement_wf(#[trigger] s2[i]) by {
        if i == movement {
            let mv = s[i];
            let mv2 = s2[i];
            assert(mv2.len() == mv.len() + 1);
            assert(mv2[0] == mv[0]);
            assert forall|j: int| 0 <= j < mv2.len() implies (#[trigger] mv2[j]).len() == mv2[0].len() by {
                if j < mv.len() {
                    assert(mv2[j] == mv[j]);
                    assert(mv[j].len() == mv[0].len());
                } else {
                    assert(mv2[j] == empty_measure(chan_count(s, movement)));
                }
            }
            assert forall|j: int| 0 <= j < mv2.len() implies measure_wf(#[trigger] mv2[j]) by {
                if j < mv.len() {
                    assert(mv2[j] == mv[j]);
                    assert(measure_wf(mv[j]));
                } else {
                    assert(mv2[j] == empty_measure(chan_count(s, movement)));
                    assert forall|k: int| 0 <= k < mv2[j].len() implies channel_wf(#[trigger] mv2[j][k]) by {
                        assert(mv2[j][k] =~= Seq::<MarkingV>::empty());
                    }
                }
            }
        } else {
            assert(s2[i] == s[i]);
        }
    }
}

} // verus!
