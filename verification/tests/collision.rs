use floppy_corgi::collision::{detect, hits_pipe, Event};
use floppy_corgi::config::Config;
use floppy_corgi::geometry::Aabb;
use floppy_corgi::lifecycle::{advance_timer, apply_events, on_fatal};
use floppy_corgi::pipes::Pipe;
use floppy_corgi::player::Player;

fn player_at(y: i128) -> Player {
    Player { x: -120_000_000, y, velocity: -30_000_000, acceleration: -60_000_000 }
}

fn pipe_at(id: u64, x: i64) -> Pipe {
    Pipe { id, x, gap_center: 0, scored: false }
}

fn square(left: i128, bottom: i128, side: i128) -> Aabb {
    Aabb { left, right: left + side, bottom, top: bottom + side }
}

#[test]
fn boxes_that_overlap_or_touch_intersect() {
    let a = square(0, 0, 10);
    assert!(a.intersects(&a));
    assert!(a.intersects(&square(5, 5, 10)));
    assert!(a.intersects(&square(-3, 2, 4)));
    assert!(a.intersects(&square(2, 2, 1)));
    assert!(square(2, 2, 1).intersects(&a));
    // An edge or a corner in common is enough.
    assert!(a.intersects(&square(10, 0, 10)));
    assert!(a.intersects(&square(10, 10, 10)));
    assert!(a.intersects(&square(-10, -10, 10)));
}

#[test]
fn boxes_apart_do_not_intersect() {
    let a = square(0, 0, 10);
    assert!(!a.intersects(&square(11, 0, 10)));
    assert!(!a.intersects(&square(0, 11, 10)));
    assert!(!a.intersects(&square(-11, 0, 10)));
    assert!(!a.intersects(&square(0, -11, 10)));
    // Overlap on one axis alone is not enough.
    assert!(!a.intersects(&square(3, 20, 4)));
    assert!(!square(3, 20, 4).intersects(&a));
}

#[test]
fn player_in_the_opening_hits_no_segment() {
    let config = Config::standard();
    let pipe = pipe_at(0, -120_000_000);
    assert!(!hits_pipe(&player_at(0).bounding_box(&config), &pipe, &config));
    assert!(!hits_pipe(&player_at(61_999_999).bounding_box(&config), &pipe, &config));
    assert!(hits_pipe(&player_at(62_000_000).bounding_box(&config), &pipe, &config));
    assert!(hits_pipe(&player_at(100_000_000).bounding_box(&config), &pipe, &config));
    assert!(!hits_pipe(&player_at(-61_999_999).bounding_box(&config), &pipe, &config));
    assert!(hits_pipe(&player_at(-62_000_000).bounding_box(&config), &pipe, &config));
    // A pipe that has not arrived, or has passed, is not in the way.
    assert!(!hits_pipe(&player_at(100_000_000).bounding_box(&config), &pipe_at(1, -95_499_999), &config));
    assert!(hits_pipe(&player_at(100_000_000).bounding_box(&config), &pipe_at(1, -95_500_000), &config));
    assert!(!hits_pipe(&player_at(100_000_000).bounding_box(&config), &pipe_at(1, -144_500_001), &config));
}

#[test]
fn detect_reports_nothing_in_open_field() {
    let config = Config::standard();
    let mut pipes = vec![pipe_at(0, 50_000_000), pipe_at(1, 250_000_000)];
    let before = pipes.clone();
    let events = detect(&player_at(10_000_000), &mut pipes, &config);
    assert_eq!(events, Vec::<Event>::new());
    assert_eq!(pipes, before);
}

#[test]
fn detect_scores_a_gate_once() {
    let config = Config::standard();
    let mut pipes = vec![pipe_at(4, -118_000_000), pipe_at(5, 82_000_000)];
    let events = detect(&player_at(10_000_000), &mut pipes, &config);
    assert_eq!(events, vec![Event::Scored(4)]);
    assert!(pipes[0].scored);
    assert!(!pipes[1].scored);

    // The player is still inside on the next tick.
    let again = detect(&player_at(9_000_000), &mut pipes, &config);
    assert_eq!(again, Vec::<Event>::new());
    assert_eq!(
        pipes,
        vec![
            Pipe { id: 4, x: -118_000_000, gap_center: 0, scored: true },
            Pipe { id: 5, x: 82_000_000, gap_center: 0, scored: false },
        ]
    );
}

#[test]
fn detect_reaches_the_gate_at_its_edge() {
    let config = Config::standard();
    // A gate is 5 units to each side of the pipe's centre line and the
    // player half a unit to each side of -120.
    let mut touching = vec![pipe_at(0, -114_500_000)];
    assert_eq!(detect(&player_at(0), &mut touching, &config), vec![Event::Scored(0)]);
    let mut short = vec![pipe_at(0, -114_499_999)];
    assert_eq!(detect(&player_at(0), &mut short, &config), Vec::<Event>::new());
    assert!(!short[0].scored);
}

#[test]
fn detect_reports_fatal_once_for_several_segments() {
    let config = Config::standard();
    let mut pipes = vec![pipe_at(0, -130_000_000), pipe_at(1, -100_000_000)];
    let events = detect(&player_at(100_000_000), &mut pipes, &config);
    assert_eq!(events, vec![Event::Fatal]);
    assert!(!pipes[0].scored);
    assert!(!pipes[1].scored);
}

#[test]
fn detect_reports_leaving_the_field() {
    let config = Config::standard();
    let mut none: Vec<Pipe> = Vec::new();
    assert_eq!(detect(&player_at(160_000_001), &mut none, &config), vec![Event::Fatal]);
    assert_eq!(detect(&player_at(-160_000_001), &mut none, &config), vec![Event::Fatal]);
    assert_eq!(detect(&player_at(160_000_000), &mut none, &config), Vec::<Event>::new());

    // Out of the field and behind a pipe: still one report.
    let mut pipes = vec![pipe_at(0, -120_000_000)];
    assert_eq!(detect(&player_at(170_000_000), &mut pipes, &config), vec![Event::Fatal]);
}

#[test]
fn detect_reports_both_and_fatal_wins() {
    let config = Config::standard();
    // At the seam between gate and upper segment the box touches both.
    let mut pipes = vec![pipe_at(8, -120_000_000), pipe_at(9, 80_000_000)];
    let mut player = player_at(62_500_000);
    let events = detect(&player, &mut pipes, &config);
    assert_eq!(events, vec![Event::Fatal, Event::Scored(8)]);
    assert!(pipes[0].scored);

    let mut score: u64 = 3;
    apply_events(&events, &mut player, &mut score, &config);
    assert_eq!(score, 0);
    assert_eq!(player, Player { x: -120_000_000, y: 0, velocity: 0, acceleration: 0 });
    // The pipes are still there.
    assert_eq!(pipes.len(), 2);
}

#[test]
fn score_grows_by_one_for_each_scored_event() {
    let config = Config::standard();
    let mut player = player_at(5_000_000);
    let before = player;
    let mut score: u64 = 41;
    apply_events(&vec![Event::Scored(7)], &mut player, &mut score, &config);
    assert_eq!(score, 42);
    apply_events(&vec![Event::Scored(8), Event::Scored(9)], &mut player, &mut score, &config);
    assert_eq!(score, 44);
    apply_events(&Vec::new(), &mut player, &mut score, &config);
    assert_eq!(score, 44);
    assert_eq!(player, before);
}

#[test]
fn fatal_resets_wherever_it_stands_among_the_events() {
    let config = Config::standard();
    for events in [
        vec![Event::Fatal],
        vec![Event::Fatal, Event::Scored(1)],
        vec![Event::Scored(1), Event::Fatal],
        vec![Event::Scored(1), Event::Fatal, Event::Scored(2)],
    ] {
        let mut player = player_at(-77_000_000);
        let mut score: u64 = 12;
        apply_events(&events, &mut player, &mut score, &config);
        assert_eq!(score, 0);
        assert_eq!(player, Player::spawn(&config));
    }
}

#[test]
fn on_fatal_puts_the_player_back_and_the_score_to_zero() {
    let config = Config::standard();
    let mut player = Player { x: -120_000_000, y: -161_000_000, velocity: -700_000_000, acceleration: -1_500_000_000 };
    let mut score: u64 = 9;
    on_fatal(&mut player, &mut score, &config);
    assert_eq!(player, Player { x: -120_000_000, y: 0, velocity: 0, acceleration: 0 });
    assert_eq!(score, 0);
}

#[test]
fn timer_fires_when_the_interval_is_reached() {
    let config = Config::standard();
    let mut timer: i64 = 0;
    assert!(!advance_timer(&mut timer, &config, 999_999));
    assert_eq!(timer, 999_999);
    assert!(advance_timer(&mut timer, &config, 1));
    assert_eq!(timer, 0);
    assert!(!advance_timer(&mut timer, &config, 0));
    assert_eq!(timer, 0);
    assert!(!advance_timer(&mut timer, &config, 600_000));
    assert!(advance_timer(&mut timer, &config, 600_000));
    assert_eq!(timer, 200_000);
}

#[test]
fn timer_fires_once_however_long_the_tick() {
    let config = Config::standard();
    let mut timer: i64 = 250_000;
    assert!(advance_timer(&mut timer, &config, 3_500_000));
    assert_eq!(timer, 750_000);
    assert!(advance_timer(&mut timer, &config, u32::MAX));
    assert_eq!(timer, (750_000 + 4_294_967_295i64) % 1_000_000);
}
