use bevy::input::keyboard::KeyCode;
use bevy::input::Input;
use taikrust::gameplay::despawn_notes;
use taikrust::gameplay::judge_notes;
use taikrust::input::Signals;
use taikrust::note::Note;
use taikrust::note::Verdict;
use taikrust::score::ScoreResource;
use taikrust::track::Track;
use taikrust::types::Key;
use taikrust::types::NoteTypes;
use taikrust::types::Speed;

fn far_target() -> Track {
    Track { base_speed: 200, spawn_position: 400, target_position: -200, threshold: 20 }
}

fn don_at(position: i64) -> Note {
    Note { position, speed: Speed::Slow, types: NoteTypes::Don }
}

fn kat_at(position: i64) -> Note {
    Note { position, speed: Speed::Slow, types: NoteTypes::Kat }
}

#[test]
fn lanes_have_their_keys() {
    assert_eq!(NoteTypes::Don.keys(), (Key::F, Key::J));
    assert_eq!(NoteTypes::Kat.keys(), (Key::R, Key::I));
    assert_eq!(NoteTypes::Don.y(), 150);
    assert_eq!(NoteTypes::Kat.y(), 150);
}

#[test]
fn signals_hold_the_keys_that_went_down() {
    let none = Signals::none();
    assert_eq!(none, Signals { f: false, j: false, r: false, i: false });
    for key in [Key::F, Key::J, Key::R, Key::I] {
        assert!(!none.holds(key));
        let one = none.with(key);
        for other in [Key::F, Key::J, Key::R, Key::I] {
            assert_eq!(one.holds(other), other == key);
        }
    }
    let two = none.with(Key::J).with(Key::I);
    assert_eq!(two, Signals { f: false, j: true, r: false, i: true });
}

#[test]
fn either_key_of_a_lane_plays_it() {
    let none = Signals::none();
    assert!(!NoteTypes::Don.signalled(&none));
    assert!(!NoteTypes::Kat.signalled(&none));
    assert!(NoteTypes::Don.signalled(&none.with(Key::F)));
    assert!(NoteTypes::Don.signalled(&none.with(Key::J)));
    assert!(!NoteTypes::Don.signalled(&none.with(Key::R).with(Key::I)));
    assert!(NoteTypes::Kat.signalled(&none.with(Key::R)));
    assert!(NoteTypes::Kat.signalled(&none.with(Key::I)));
    assert!(!NoteTypes::Kat.signalled(&none.with(Key::F).with(Key::J)));
}

#[test]
fn keyboard_reports_keys_that_were_just_pressed() {
    let mut input: Input<KeyCode> = Input::default();
    assert!(!NoteTypes::Don.key_just_pressed(&input));
    assert!(!NoteTypes::Kat.key_just_pressed(&input));
    assert_eq!(Signals::read(&input), Signals::none());
    input.press(KeyCode::J);
    assert!(NoteTypes::Don.key_just_pressed(&input));
    assert!(!NoteTypes::Kat.key_just_pressed(&input));
    assert_eq!(Signals::read(&input), Signals::none().with(Key::J));
    input.press(KeyCode::R);
    input.press(KeyCode::Space);
    assert!(NoteTypes::Kat.key_just_pressed(&input));
    assert_eq!(Signals::read(&input), Signals::none().with(Key::J).with(Key::R));
    input.update();
    assert!(!NoteTypes::Don.key_just_pressed(&input));
    assert!(!NoteTypes::Kat.key_just_pressed(&input));
    assert_eq!(Signals::read(&input), Signals::none());
    input.press(KeyCode::J);
    assert!(!NoteTypes::Don.key_just_pressed(&input));
    input.press(KeyCode::F);
    input.press(KeyCode::I);
    assert_eq!(Signals::read(&input), Signals::none().with(Key::F).with(Key::I));
}

#[test]
fn keys_of_the_other_lane_and_other_keys_do_not_play_a_lane() {
    let mut input: Input<KeyCode> = Input::default();
    input.press(KeyCode::R);
    input.press(KeyCode::I);
    input.press(KeyCode::A);
    assert!(!NoteTypes::Don.key_just_pressed(&input));
    let mut input: Input<KeyCode> = Input::default();
    input.press(KeyCode::F);
    assert!(NoteTypes::Don.key_just_pressed(&input));
    assert!(!NoteTypes::Kat.key_just_pressed(&input));
}

#[test]
fn note_in_the_window_with_its_lane_played_is_hit() {
    let track = far_target();
    let played = Signals::none().with(Key::F);
    assert_eq!(
        don_at(-200_000_000_000).judge(&track, &played),
        Some(Verdict::Hit { error: 0 })
    );
    assert_eq!(
        don_at(-180_000_000_000).judge(&track, &played),
        Some(Verdict::Hit { error: -20_000_000_000 })
    );
    assert_eq!(
        don_at(-220_000_000_000).judge(&track, &played),
        Some(Verdict::Hit { error: 20_000_000_000 })
    );
    assert_eq!(don_at(-179_999_999_999).judge(&track, &played), None);
    assert_eq!(don_at(-220_000_000_001).judge(&track, &played), None);
    assert!(don_at(-180_000_000_000).is_in_hit_window(&track));
    assert!(!don_at(-179_999_999_999).is_in_hit_window(&track));
}

#[test]
fn note_in_the_window_stays_without_its_signal() {
    let track = far_target();
    assert_eq!(don_at(-200_000_000_000).judge(&track, &Signals::none()), None);
    let other_lane = Signals::none().with(Key::R).with(Key::I);
    assert_eq!(don_at(-200_000_000_000).judge(&track, &other_lane), None);
    assert_eq!(
        kat_at(-200_000_000_000).judge(&track, &other_lane),
        Some(Verdict::Hit { error: 0 })
    );
}

#[test]
fn note_past_twice_the_target_is_missed() {
    let track = far_target();
    let all = Signals { f: true, j: true, r: true, i: true };
    assert_eq!(don_at(-399_999_999_999).judge(&track, &all), None);
    assert_eq!(don_at(-400_000_000_000).judge(&track, &all), Some(Verdict::Miss));
    assert_eq!(don_at(-400_000_000_000).judge(&track, &Signals::none()), Some(Verdict::Miss));
    assert_eq!(don_at(i64::MIN).judge(&track, &Signals::none()), Some(Verdict::Miss));
    assert!(don_at(-400_000_000_000).is_overrun(&track));
    assert!(!don_at(-399_999_999_999).is_overrun(&track));
    let up = Track { base_speed: 200, spawn_position: -400, target_position: 200, threshold: 20 };
    assert_eq!(don_at(399_999_999_999).judge(&up, &all), None);
    assert_eq!(don_at(400_000_000_000).judge(&up, &all), Some(Verdict::Miss));
}

#[test]
fn hit_wins_over_miss() {
    let track = Track { base_speed: 200, spawn_position: 400, target_position: 200, threshold: 20 };
    let note = don_at(210_000_000_000);
    assert!(note.is_in_hit_window(&track));
    assert!(note.is_overrun(&track));
    assert_eq!(
        note.judge(&track, &Signals::none().with(Key::J)),
        Some(Verdict::Hit { error: -10_000_000_000 })
    );
    assert_eq!(note.judge(&track, &Signals::none()), Some(Verdict::Miss));
    let mut notes = vec![note];
    let mut score = ScoreResource::new();
    let verdicts = judge_notes(&track, &mut notes, &Signals::none().with(Key::J), &mut score);
    assert_eq!(verdicts, vec![Verdict::Hit { error: -10_000_000_000 }]);
    assert!(notes.is_empty());
    assert_eq!((score.corrects(), score.fails()), (1, 0));
}

#[test]
fn slow_note_on_the_reference_track_is_hit_within_a_tenth_of_a_second() {
    let track = Track { base_speed: 200, spawn_position: 400, target_position: 200, threshold: 20 };
    let played = Signals::none().with(Key::F);
    for (elapsed, error) in [
        (900_000u64, Some(-20_000_000_000i64)),
        (950_000, Some(-10_000_000_000)),
        (1_000_000, Some(0)),
        (1_100_000, Some(20_000_000_000)),
        (899_999, None),
        (1_100_001, None),
    ] {
        let mut note = don_at(400_000_000_000);
        note.advance(&track, elapsed);
        let verdict = note.judge(&track, &played);
        match error {
            Some(error) => assert_eq!(verdict, Some(Verdict::Hit { error })),
            None => assert_eq!(verdict, Some(Verdict::Miss)),
        }
        assert_eq!(note.judge(&track, &Signals::none()), Some(Verdict::Miss));
    }
}

#[test]
fn judged_notes_leave_play_and_the_others_stay_in_order() {
    let track = far_target();
    let mut notes = vec![
        don_at(100),
        don_at(-200_000_000_000),
        kat_at(-200_000_000_000),
        kat_at(-500_000_000_000),
        kat_at(-210_000_000_000),
        don_at(-195_000_000_000),
        don_at(200),
    ];
    let mut score = ScoreResource::new();
    let verdicts = judge_notes(&track, &mut notes, &Signals::none().with(Key::F), &mut score);
    assert_eq!(
        verdicts,
        vec![
            Verdict::Hit { error: 0 },
            Verdict::Miss,
            Verdict::Hit { error: -5_000_000_000 },
        ]
    );
    assert_eq!(
        notes,
        vec![don_at(100), kat_at(-200_000_000_000), kat_at(-210_000_000_000), don_at(200)]
    );
    assert_eq!(score.corrects(), 2);
    assert_eq!(score.fails(), 1);
    assert_eq!(score.score(), 100 + 75);
    let again = judge_notes(&track, &mut notes, &Signals::none(), &mut score);
    assert!(again.is_empty());
    assert_eq!(notes.len(), 4);
    assert_eq!(score.score(), 175);
}

#[test]
fn notes_are_judged_against_the_keyboard() {
    let track = far_target();
    let mut notes = vec![
        don_at(-200_000_000_000),
        kat_at(-200_000_000_000),
        don_at(-400_000_000_000),
    ];
    let mut score = ScoreResource::new();
    let mut input: Input<KeyCode> = Input::default();
    input.press(KeyCode::I);
    let verdicts = despawn_notes(&track, &mut notes, &input, &mut score);
    assert_eq!(verdicts, vec![Verdict::Hit { error: 0 }, Verdict::Miss]);
    assert_eq!(notes, vec![don_at(-200_000_000_000)]);
    input.update();
    let verdicts = despawn_notes(&track, &mut notes, &input, &mut score);
    assert!(verdicts.is_empty());
    input.press(KeyCode::F);
    let verdicts = despawn_notes(&track, &mut notes, &input, &mut score);
    assert_eq!(verdicts, vec![Verdict::Hit { error: 0 }]);
    assert!(notes.is_empty());
    assert_eq!((score.score(), score.corrects(), score.fails()), (200, 2, 1));
}
