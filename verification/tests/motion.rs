use taikrust::chart::NoteTime;
use taikrust::gameplay::move_notes;
use taikrust::gameplay::song_time;
use taikrust::gameplay::tick_length;
use taikrust::note::Note;
use taikrust::track::Track;
use taikrust::types::NoteTypes;
use taikrust::types::Speed;

fn note_at(position: i64, speed: Speed) -> Note {
    Note { position, speed, types: NoteTypes::Don }
}

#[test]
fn note_moves_by_speed_times_time() {
    let track = Track::reference();
    let mut note = note_at(400_000_000_000, Speed::Slow);
    note.advance(&track, 16_667);
    assert_eq!(note.position, 400_000_000_000 - 200_000 * 16_667);
    let mut note = note_at(400_000_000_000, Speed::Medium);
    note.advance(&track, 1);
    assert_eq!(note.position, 399_999_760_000);
    let mut note = note_at(400_000_000_000, Speed::Fast);
    note.advance(&track, 0);
    assert_eq!(note.position, 400_000_000_000);
    assert_eq!(note.speed, Speed::Fast);
    assert_eq!(note.types, NoteTypes::Don);
}

#[test]
fn slow_note_reaches_the_target_after_one_second() {
    let track = Track { base_speed: 200, spawn_position: 400, target_position: 200, threshold: 20 };
    let scheduled = NoteTime::new(&track, 1_000_000, Speed::Slow, NoteTypes::Don).unwrap();
    assert_eq!(scheduled.spawn_time, 0);
    let mut note = Note::spawned(&track, &scheduled);
    assert_eq!(note.position, 400_000_000_000);
    let mut elapsed = scheduled.spawn_time;
    for current in [16_667, 33_333, 250_000, 900_000, 999_999, 1_000_000] {
        note.advance(&track, tick_length(elapsed, current));
        elapsed = current;
    }
    assert_eq!(note.position, 200_000_000_000);
}

#[test]
fn note_arrives_short_of_the_target_by_less_than_a_microsecond_of_travel() {
    let track = Track::reference();
    for speed in [Speed::Slow, Speed::Medium, Speed::Fast] {
        let hit_time = 7_000_000;
        let scheduled = NoteTime::new(&track, hit_time, speed, NoteTypes::Kat).unwrap();
        let mut note = Note::spawned(&track, &scheduled);
        let mut elapsed = scheduled.spawn_time;
        while elapsed < hit_time {
            let current = (elapsed + 16_667).min(hit_time);
            note.advance(&track, tick_length(elapsed, current));
            elapsed = current;
        }
        let short = note.position - track.target();
        assert!(0 <= short && (short as u64) < speed.value(track.base_speed));
        assert_eq!(short as u64, track.distance() % speed.value(track.base_speed));
    }
    let mut medium = note_at(400_000_000_000, Speed::Medium);
    medium.advance(&track, 833_333);
    assert_eq!(medium.position, 200_000_080_000);
}

#[test]
fn note_moves_up_on_an_ascending_track() {
    let track = Track { base_speed: 200, spawn_position: -400, target_position: 200, threshold: 20 };
    let scheduled = NoteTime::new(&track, 3_000_000, Speed::Slow, NoteTypes::Don).unwrap();
    assert_eq!(scheduled.spawn_time, 0);
    let mut note = Note::spawned(&track, &scheduled);
    assert_eq!(note.position, -400_000_000_000);
    note.advance(&track, 1_000_000);
    assert_eq!(note.position, -200_000_000_000);
    note.advance(&track, 2_000_000);
    assert_eq!(note.position, 200_000_000_000);
}

#[test]
fn two_ticks_move_a_note_as_far_as_one_tick_of_their_length() {
    let track = Track::reference();
    let mut twice = note_at(123_456_789, Speed::Medium);
    twice.advance(&track, 1_234);
    twice.advance(&track, 98_765);
    let mut once = note_at(123_456_789, Speed::Medium);
    once.advance(&track, 1_234 + 98_765);
    assert_eq!(twice, once);
}

#[test]
fn note_stops_at_the_end_of_the_axis() {
    let track = Track::reference();
    let mut note = note_at(i64::MIN + 5, Speed::Slow);
    note.advance(&track, 1);
    assert_eq!(note.position, i64::MIN);
    let mut note = note_at(0, Speed::Fast);
    note.advance(&track, u64::MAX);
    assert_eq!(note.position, i64::MIN);
    let up = Track { base_speed: u32::MAX, spawn_position: 0, target_position: 1, threshold: 0 };
    let mut note = note_at(i64::MAX - 1, Speed::Fast);
    note.advance(&up, u64::MAX);
    assert_eq!(note.position, i64::MAX);
}

#[test]
fn note_on_a_still_track_does_not_move() {
    let still = Track { base_speed: 0, spawn_position: 400, target_position: 200, threshold: 20 };
    let mut note = note_at(77, Speed::Fast);
    note.advance(&still, 1_000_000);
    assert_eq!(note.position, 77);
}

#[test]
fn every_note_in_play_moves() {
    let track = Track::reference();
    let mut notes = vec![
        note_at(400_000_000_000, Speed::Slow),
        note_at(300_000_000_000, Speed::Medium),
        note_at(-5, Speed::Fast),
    ];
    move_notes(&track, &mut notes, 500_000);
    assert_eq!(
        notes,
        vec![
            note_at(300_000_000_000, Speed::Slow),
            note_at(180_000_000_000, Speed::Medium),
            note_at(-150_000_000_005, Speed::Fast),
        ]
    );
    let mut none: Vec<Note> = Vec::new();
    move_notes(&track, &mut none, 500_000);
    assert!(none.is_empty());
}

#[test]
fn tick_length_is_never_negative() {
    assert_eq!(tick_length(0, 16_667), 16_667);
    assert_eq!(tick_length(-3_000_000, -2_000_000), 1_000_000);
    assert_eq!(tick_length(5, 5), 0);
    assert_eq!(tick_length(6, 5), 0);
    assert_eq!(tick_length(i64::MIN, i64::MAX), u64::MAX);
}

#[test]
fn song_starts_after_the_lead_in() {
    assert_eq!(song_time(0), -3_000_000);
    assert_eq!(song_time(3_000_000), 0);
    assert_eq!(song_time(4_500_000), 1_500_000);
    assert_eq!(song_time(u64::MAX), i64::MAX);
}
