use taikrust::note::Verdict;
use taikrust::score::reward;
use taikrust::score::ScoreResource;
use taikrust::track::Track;

#[test]
fn reward_falls_with_the_distance_from_the_target() {
    let track = Track::reference();
    assert_eq!(reward(&track, 0), 100);
    assert_eq!(reward(&track, 1), 99);
    assert_eq!(reward(&track, 5_000_000_000), 75);
    assert_eq!(reward(&track, 10_000_000_000), 50);
    assert_eq!(reward(&track, -10_000_000_000), 50);
    assert_eq!(reward(&track, 17_999_999_999), 10);
    assert_eq!(reward(&track, 17_800_000_000), 11);
    assert_eq!(reward(&track, -19_000_000_000), 10);
    assert_eq!(reward(&track, 20_000_000_000), 10);
    assert_eq!(reward(&track, -20_000_000_000), 10);
    assert_eq!(reward(&track, 30_000_000_000), 10);
    assert_eq!(reward(&track, i64::MAX), 10);
    assert_eq!(reward(&track, i64::MIN), 10);
}

#[test]
fn reward_is_monotonic_and_bounded() {
    let track = Track::reference();
    let mut last = reward(&track, 0);
    let mut error = 0;
    while error <= 25_000_000_000 {
        let points = reward(&track, error);
        assert!(points <= last);
        assert!((10..=100).contains(&points));
        assert_eq!(points, reward(&track, -error));
        last = points;
        error += 123_456_789;
    }
}

#[test]
fn reward_on_a_track_without_a_window() {
    let track = Track { base_speed: 200, spawn_position: 400, target_position: 200, threshold: 0 };
    assert_eq!(reward(&track, 0), 100);
    assert_eq!(reward(&track, 1), 10);
    assert_eq!(reward(&track, -1), 10);
}

#[test]
fn reward_on_the_widest_window() {
    let track = Track {
        base_speed: 200,
        spawn_position: 0,
        target_position: 0,
        threshold: u32::MAX,
    };
    assert_eq!(reward(&track, 0), 100);
    assert_eq!(reward(&track, 2_147_483_647_500_000_000), 50);
    assert_eq!(reward(&track, -4_294_967_295_000_000_000), 10);
    assert_eq!(reward(&track, i64::MIN), 10);
}

#[test]
fn score_board_starts_empty() {
    let board = ScoreResource::new();
    assert_eq!(board.score(), 0);
    assert_eq!(board.corrects(), 0);
    assert_eq!(board.fails(), 0);
}

#[test]
fn hit_adds_its_reward_and_a_correct() {
    let track = Track::reference();
    let mut board = ScoreResource::new();
    assert_eq!(board.increase_correct(&track, 0), 100);
    assert_eq!((board.score(), board.corrects(), board.fails()), (100, 1, 0));
    assert_eq!(board.increase_correct(&track, -10_000_000_000), 50);
    assert_eq!((board.score(), board.corrects(), board.fails()), (150, 2, 0));
    assert_eq!(board.increase_correct(&track, 20_000_000_000), 10);
    assert_eq!((board.score(), board.corrects(), board.fails()), (160, 3, 0));
}

#[test]
fn miss_adds_a_fail_and_no_points() {
    let mut board = ScoreResource::new();
    board.increase_fails();
    board.increase_fails();
    assert_eq!((board.score(), board.corrects(), board.fails()), (0, 0, 2));
}

#[test]
fn counts_never_fall() {
    let track = Track::reference();
    let mut board = ScoreResource::new();
    let verdicts = [
        Verdict::Miss,
        Verdict::Hit { error: 3_000_000_000 },
        Verdict::Hit { error: -19_999_999_999 },
        Verdict::Miss,
        Verdict::Hit { error: 0 },
    ];
    let mut last = (0, 0, 0);
    for verdict in verdicts {
        board.apply(&track, verdict);
        let now = (board.score(), board.corrects(), board.fails());
        assert!(now.0 >= last.0 && now.1 >= last.1 && now.2 >= last.2);
        last = now;
    }
    assert_eq!(last, (85 + 10 + 100, 3, 2));
}
