//! Behavioural tests for the document edit model.

use scorefall::fraction::Fraction;
use scorefall::marking::{Marking, Note};
use scorefall::pitch::{Pitch, PitchName};
use scorefall::program::{command_for_key, EditCommand, Program};
use scorefall::score::{Channel, Cursor, Measure, Movement, Score};

/// A score with one movement whose measures each hold one channel with
/// the given markings.
fn score_of(measures: Vec<Vec<Marking>>) -> Score {
    Score {
        movements: vec![Movement {
            measures: measures
                .into_iter()
                .map(|markings| Measure { channels: vec![Channel { markings }] })
                .collect(),
        }],
    }
}

fn note(name: PitchName, octave: u8, num: u32, den: u32) -> Marking {
    Marking::Note(Note {
        pitches: vec![Pitch { name, octave }],
        duration: Fraction { num, den },
    })
}

fn first_marking(p: &Program) -> &Marking {
    &p.score.movements[p.cursor.movement].measures[p.cursor.measure].channels[p.cursor.chan]
        .markings[p.cursor.marking]
}

#[test]
fn set_duration_creates_default_note() {
    let mut p = Program::new();
    assert_eq!(p.score.movements[0].measures[0].channels[0].markings.len(), 0);
    p.set_dur(Fraction::new(1, 4));
    assert_eq!(
        p.cursor,
        Cursor { movement: 0, measure: 0, chan: 0, marking: 0 }
    );
    assert_eq!(
        *first_marking(&p),
        note(PitchName::C, 4, 1, 4)
    );
    assert_eq!(p.score.movements[0].measures.len(), 1);
}

#[test]
fn navigate_right_past_end_appends_measures() {
    let mut p = Program::new();
    for n in 1..=3usize {
        p.right();
        assert_eq!(p.score.movements[0].measures.len(), 1 + n);
        assert_eq!(
            p.cursor,
            Cursor { movement: 0, measure: n, chan: 0, marking: 0 }
        );
        assert_eq!(
            p.score.movements[0].measures[n].channels[0].markings.len(),
            0
        );
    }
}

#[test]
fn navigate_left_at_start_is_noop() {
    let mut p = Program::new();
    p.set_dur(Fraction::new(1, 2));
    let score_before = p.score.clone();
    let cursor_before = p.cursor;
    p.left();
    assert_eq!(p.score, score_before);
    assert_eq!(p.cursor, cursor_before);
    p.left();
    assert_eq!(p.score, score_before);
    assert_eq!(p.cursor, cursor_before);
}

#[test]
fn step_up_then_down_restores_pitch() {
    let mut p = Program::new();
    p.set_dur(Fraction::new(1, 4));
    let score_before = p.score.clone();
    p.up_step();
    assert_eq!(*first_marking(&p), note(PitchName::D, 4, 1, 4));
    p.down_step();
    assert_eq!(p.score, score_before);
}

#[test]
fn step_crosses_octave_boundary() {
    let mut p = Program::new();
    p.set_dur(Fraction::new(1, 1));
    for _ in 0..7 {
        p.up_step();
    }
    assert_eq!(*first_marking(&p), note(PitchName::C, 5, 1, 1));
    for _ in 0..7 {
        p.down_step();
    }
    assert_eq!(*first_marking(&p), note(PitchName::C, 4, 1, 1));
}

#[test]
fn step_on_empty_slot_creates_whole_note() {
    let mut p = Program::new();
    p.up_step();
    assert_eq!(*first_marking(&p), note(PitchName::C, 4, 1, 1));
}

#[test]
fn step_on_pitchless_note_steps_from_reference() {
    let mut p = Program {
        score: score_of(vec![vec![Marking::Note(Note {
            pitches: vec![],
            duration: Fraction { num: 1, den: 2 },
        })]]),
        cursor: Cursor { movement: 0, measure: 0, chan: 0, marking: 0 },
    };
    p.up_step();
    assert_eq!(*first_marking(&p), note(PitchName::D, 4, 1, 2));
}

#[test]
fn edits_on_non_note_marking_do_nothing() {
    for m in [
        Marking::Breath,
        Marking::Repeat,
        Marking::CaesuraShort,
        Marking::Pizz,
    ] {
        let mut p = Program {
            score: score_of(vec![vec![m]]),
            cursor: Cursor { movement: 0, measure: 0, chan: 0, marking: 0 },
        };
        let score_before = p.score.clone();
        let cursor_before = p.cursor;
        p.set_dur(Fraction::new(1, 8));
        p.up_step();
        p.down_step();
        p.up_half_step();
        p.dotted();
        p.tuplet();
        assert_eq!(p.score, score_before);
        assert_eq!(p.cursor, cursor_before);
    }
}

#[test]
fn set_duration_reads_back_exactly() {
    let mut p = Program::new();
    p.set_dur(Fraction::new(1, 4));
    p.set_dur(Fraction::new(5, 8));
    match first_marking(&p) {
        Marking::Note(n) => assert_eq!(n.duration, Fraction { num: 5, den: 8 }),
        other => panic!("expected a note, found {:?}", other),
    }
}

#[test]
fn dotted_multiplies_duration_by_three_halves() {
    let mut p = Program::new();
    p.set_dur(Fraction::new(1, 4));
    p.dotted();
    assert_eq!(*first_marking(&p), note(PitchName::C, 4, 3, 8));
}

#[test]
fn dotted_that_would_overflow_is_noop() {
    let mut p = Program::new();
    p.set_dur(Fraction::new(u32::MAX, 1));
    p.dotted();
    assert_eq!(*first_marking(&p), note(PitchName::C, 4, u32::MAX, 1));
}

#[test]
fn half_and_quarter_steps_equal_full_step() {
    let mut full = Program::new();
    full.set_dur(Fraction::new(1, 4));
    let mut half = Program::new();
    half.set_dur(Fraction::new(1, 4));
    let mut quarter = Program::new();
    quarter.set_dur(Fraction::new(1, 4));

    full.up_step();
    half.up_half_step();
    quarter.up_quarter_step();
    assert_eq!(full.score, half.score);
    assert_eq!(full.score, quarter.score);

    full.down_step();
    half.down_half_step();
    quarter.down_quarter_step();
    assert_eq!(full.score, half.score);
    assert_eq!(full.score, quarter.score);
}

#[test]
fn tuplet_is_noop() {
    let mut p = Program::new();
    p.set_dur(Fraction::new(1, 4));
    let score_before = p.score.clone();
    let cursor_before = p.cursor;
    p.tuplet();
    assert_eq!(p.score, score_before);
    assert_eq!(p.cursor, cursor_before);
}

#[test]
fn navigation_within_and_across_measures() {
    let mut p = Program {
        score: score_of(vec![
            vec![note(PitchName::C, 4, 1, 4), Marking::Breath],
            vec![note(PitchName::D, 4, 1, 2)],
        ]),
        cursor: Cursor { movement: 0, measure: 0, chan: 0, marking: 0 },
    };
    p.right();
    assert_eq!(p.cursor, Cursor { movement: 0, measure: 0, chan: 0, marking: 1 });
    p.right();
    assert_eq!(p.cursor, Cursor { movement: 0, measure: 1, chan: 0, marking: 0 });
    // The second measure already existed, so nothing was appended.
    assert_eq!(p.score.movements[0].measures.len(), 2);
    p.left();
    assert_eq!(p.cursor, Cursor { movement: 0, measure: 0, chan: 0, marking: 1 });
    p.left();
    assert_eq!(p.cursor, Cursor { movement: 0, measure: 0, chan: 0, marking: 0 });
}

#[test]
fn apply_dispatches_commands() {
    let mut by_commands = Program::new();
    by_commands.apply(EditCommand::SetDuration(Fraction::new(1, 8)));
    by_commands.apply(EditCommand::StepUp);
    by_commands.apply(EditCommand::Dotted);
    by_commands.apply(EditCommand::NavigateRight);
    by_commands.apply(EditCommand::NavigateLeft);
    by_commands.apply(EditCommand::Tuplet);

    let mut by_calls = Program::new();
    by_calls.set_dur(Fraction::new(1, 8));
    by_calls.up_step();
    by_calls.dotted();
    by_calls.right();
    by_calls.left();
    by_calls.tuplet();

    assert_eq!(by_commands.score, by_calls.score);
    assert_eq!(by_commands.cursor, by_calls.cursor);
}

#[test]
fn key_bindings_map_to_commands() {
    assert_eq!(command_for_key('h', false, false), Some(EditCommand::NavigateLeft));
    assert_eq!(command_for_key('l', false, false), Some(EditCommand::NavigateRight));
    assert_eq!(command_for_key('k', false, false), Some(EditCommand::StepUp));
    assert_eq!(command_for_key('j', false, false), Some(EditCommand::StepDown));
    assert_eq!(command_for_key('k', true, false), Some(EditCommand::HalfStepUp));
    assert_eq!(command_for_key('j', true, false), Some(EditCommand::HalfStepDown));
    assert_eq!(command_for_key('k', false, true), Some(EditCommand::QuarterStepUp));
    assert_eq!(command_for_key('j', false, true), Some(EditCommand::QuarterStepDown));
    assert_eq!(
        command_for_key('5', false, false),
        Some(EditCommand::SetDuration(Fraction { num: 1, den: 4 }))
    );
    assert_eq!(
        command_for_key('9', false, false),
        Some(EditCommand::SetDuration(Fraction { num: 4, den: 1 }))
    );
    assert_eq!(command_for_key('.', false, false), Some(EditCommand::Dotted));
    assert_eq!(command_for_key('x', false, false), None);
}

#[test]
fn default_equals_new() {
    let d = Program::default();
    let n = Program::new();
    assert_eq!(d.score, n.score);
    assert_eq!(d.cursor, n.cursor);
}
