use floppy_corgi::config::Config;
use floppy_corgi::fixed::scale;
use floppy_corgi::player::{apply_boost, apply_gravity, check_in_bounds, Player};

const SIXTIETH: u32 = 16_667;

fn units(millionths: i128) -> f64 {
    millionths as f64 / 1_000_000.0
}

#[test]
fn scale_truncates_toward_zero() {
    assert_eq!(scale(1_500_000, 1), 1);
    assert_eq!(scale(-1_500_000, 1), -1);
    assert_eq!(scale(999_999, 1), 0);
    assert_eq!(scale(-999_999, 1), 0);
    assert_eq!(scale(200_000_000, 16_667), 3_333_400);
    assert_eq!(scale(-2_000_000_000, 16_667), -33_334_000);
    assert_eq!(scale(135_000_000, -333_333), -44_999_955);
    assert_eq!(scale(0, 16_667), 0);
    assert_eq!(scale(400_000_000, 0), 0);
}

#[test]
fn player_spawns_at_rest_a_quarter_left_of_centre() {
    let config = Config::standard();
    let player = Player::spawn(&config);
    assert_eq!(player, Player { x: -120_000_000, y: 0, velocity: 0, acceleration: 0 });
}

#[test]
fn gravity_step_follows_the_acceleration_coupled_law() {
    let config = Config::standard();
    assert_eq!(config.gravity, -2_000_000_000);
    let mut player = Player::spawn(&config);
    apply_gravity(&mut player, &config, SIXTIETH);
    assert_eq!(player.acceleration, -33_334_000);
    assert_eq!(player.velocity, -555_577);
    assert_eq!(player.y, -9_259);
    assert_eq!(player.x, -120_000_000);
    assert!((units(player.acceleration) - -33.33).abs() < 0.01);
    assert!((units(player.velocity) - -0.555).abs() < 0.001);
    assert!((units(player.y) - -0.00926).abs() < 0.00001);
}

#[test]
fn second_gravity_step_builds_on_the_first() {
    let config = Config::standard();
    let mut player = Player::spawn(&config);
    apply_gravity(&mut player, &config, SIXTIETH);
    apply_gravity(&mut player, &config, SIXTIETH);
    assert_eq!(player.acceleration, -66_668_000);
    assert_eq!(player.velocity, -555_577 - 1_111_155);
    assert_eq!(player.y, -9_259 - 27_779);
}

#[test]
fn gravity_step_of_no_time_changes_nothing() {
    let config = Config::standard();
    let mut player = Player { x: -120_000_000, y: 5_000_000, velocity: 7_000_000, acceleration: -3 };
    let before = player;
    apply_gravity(&mut player, &config, 0);
    assert_eq!(player, before);
}

#[test]
fn velocity_never_rises_while_falling() {
    let config = Config::standard();
    let mut player = Player::spawn(&config);
    apply_boost(&mut player, &config);
    let steps: [u32; 8] = [16_667, 1, 33_333, 1_000, 16_667, 250_000, 7, 16_667];
    let mut last = player.velocity;
    for dt in steps {
        apply_gravity(&mut player, &config, dt);
        assert!(player.velocity <= last);
        assert!(player.acceleration <= 0);
        last = player.velocity;
    }
    assert!(player.velocity < 400_000_000);
}

#[test]
fn boost_overwrites_velocity_and_acceleration() {
    let config = Config::standard();
    let mut falling =
        Player { x: -120_000_000, y: -40_000_000, velocity: -321_000_000, acceleration: -900_000_000 };
    apply_boost(&mut falling, &config);
    assert_eq!(falling.velocity, 400_000_000);
    assert_eq!(falling.acceleration, 0);
    assert_eq!(falling.y, -40_000_000);
    assert_eq!(falling.x, -120_000_000);

    let mut rising =
        Player { x: -120_000_000, y: 12, velocity: 399_999_999, acceleration: -1 };
    apply_boost(&mut rising, &config);
    assert_eq!(rising.velocity, 400_000_000);
    assert_eq!(rising.acceleration, 0);

    let mut faster = Player { x: 0, y: 0, velocity: 900_000_000, acceleration: 5 };
    apply_boost(&mut faster, &config);
    assert_eq!(faster.velocity, 400_000_000);
    assert_eq!(faster.acceleration, 0);
}

#[test]
fn second_boost_changes_nothing() {
    let config = Config::standard();
    let mut player = Player { x: -120_000_000, y: 3, velocity: -5, acceleration: -7 };
    apply_boost(&mut player, &config);
    let once = player;
    apply_boost(&mut player, &config);
    assert_eq!(player, once);
}

#[test]
fn boost_then_gravity_starts_from_the_boost_velocity() {
    let config = Config::standard();
    let mut player = Player { x: -120_000_000, y: 0, velocity: -50_000_000, acceleration: -80_000_000 };
    apply_boost(&mut player, &config);
    apply_gravity(&mut player, &config, SIXTIETH);
    assert_eq!(player.acceleration, -33_334_000);
    assert_eq!(player.velocity, 400_000_000 - 555_577);
    assert_eq!(player.y, 6_657_540);
}

#[test]
fn check_in_bounds_allows_the_players_size_beyond_the_field() {
    let config = Config::standard();
    let at = |y: i128| Player { x: -120_000_000, y, velocity: 0, acceleration: 0 };
    assert!(check_in_bounds(&at(0), &config));
    assert!(check_in_bounds(&at(135_000_000), &config));
    assert!(check_in_bounds(&at(160_000_000), &config));
    assert!(!check_in_bounds(&at(160_000_001), &config));
    assert!(check_in_bounds(&at(-160_000_000), &config));
    assert!(!check_in_bounds(&at(-160_000_001), &config));
}

#[test]
fn bounding_box_is_centred_on_the_player() {
    let config = Config::standard();
    let player = Player { x: -120_000_000, y: 30_000_000, velocity: 0, acceleration: 0 };
    let bounds = player.bounding_box(&config);
    assert_eq!(bounds.left, -120_500_000);
    assert_eq!(bounds.right, -119_500_000);
    assert_eq!(bounds.bottom, 29_500_000);
    assert_eq!(bounds.top, 30_500_000);
}
