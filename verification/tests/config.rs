use floppy_corgi::config::{
    Config, ConfigError, MAX_LENGTH, MAX_NOISE_SEED, MAX_RATE, MAX_SPAWN_INTERVAL,
};
use floppy_corgi::game::Game;

fn error_of(config: Config) -> Option<ConfigError> {
    let checked = config.validate().err();
    let begun = Game::new(config).err();
    assert_eq!(checked, begun);
    checked
}

#[test]
fn standard_configuration_is_valid() {
    let config = Config::standard();
    assert_eq!(config.validate(), Ok(()));
    assert!(Game::new(config).is_ok());
    assert_eq!(config.spawn_position(), 250_000_000);
    assert_eq!(config.boost_velocity, 400_000_000);
    assert_eq!(config.noise_scale, 23_400);
    assert_eq!(config.noise_seed, 0);
}

#[test]
fn gap_larger_than_field_is_rejected() {
    let config = Config { gap_size: 270_000_001, ..Config::standard() };
    assert_eq!(error_of(config), Some(ConfigError::GapLargerThanField));
    // A gap as tall as the field is the limit, not an error.
    let config = Config { gap_size: 270_000_000, ..Config::standard() };
    assert_eq!(error_of(config), None);
}

#[test]
fn non_positive_spawn_interval_is_rejected() {
    let config = Config { spawn_interval: 0, ..Config::standard() };
    assert_eq!(error_of(config), Some(ConfigError::NonPositiveSpawnInterval));
    let config = Config { spawn_interval: -1_000_000, ..Config::standard() };
    assert_eq!(error_of(config), Some(ConfigError::NonPositiveSpawnInterval));
    let config = Config { spawn_interval: 1, ..Config::standard() };
    assert_eq!(error_of(config), None);
}

#[test]
fn length_out_of_range_is_rejected() {
    let base = Config::standard();
    for config in [
        Config { segment_width: -1, ..base },
        Config { segment_height: MAX_LENGTH + 1, ..base },
        Config { gate_width: -5, ..base },
        Config { field_width: MAX_LENGTH + 1, ..base },
        Config { field_height: MAX_LENGTH + 1, ..base },
        Config { margin: -1, ..base },
        Config { player_size: MAX_LENGTH + 1, ..base },
        Config { player_half_extent: -1, ..base },
        Config { gap_size: -1, ..base },
    ] {
        assert_eq!(error_of(config), Some(ConfigError::LengthOutOfRange));
    }
    let config = Config { field_width: MAX_LENGTH, field_height: MAX_LENGTH, margin: 0, ..base };
    assert_eq!(error_of(config), None);
}

#[test]
fn rate_out_of_range_is_rejected() {
    let base = Config::standard();
    for config in [
        Config { gravity: -MAX_RATE - 1, ..base },
        Config { gravity: MAX_RATE + 1, ..base },
        Config { boost_velocity: MAX_RATE + 1, ..base },
        Config { boost_velocity: -MAX_RATE - 1, ..base },
        Config { scroll_speed: -1, ..base },
        Config { scroll_speed: MAX_RATE + 1, ..base },
    ] {
        assert_eq!(error_of(config), Some(ConfigError::RateOutOfRange));
    }
    let config = Config { gravity: -MAX_RATE, boost_velocity: MAX_RATE, scroll_speed: 0, ..base };
    assert_eq!(error_of(config), None);
}

#[test]
fn spawn_interval_too_long_is_rejected() {
    let config = Config { spawn_interval: MAX_SPAWN_INTERVAL + 1, ..Config::standard() };
    assert_eq!(error_of(config), Some(ConfigError::SpawnIntervalTooLong));
    let config = Config { spawn_interval: MAX_SPAWN_INTERVAL, ..Config::standard() };
    assert_eq!(error_of(config), None);
}

#[test]
fn non_positive_noise_scale_is_rejected() {
    let config = Config { noise_scale: 0, ..Config::standard() };
    assert_eq!(error_of(config), Some(ConfigError::NonPositiveNoiseScale));
    let config = Config { noise_scale: -23_400, ..Config::standard() };
    assert_eq!(error_of(config), Some(ConfigError::NonPositiveNoiseScale));
}

#[test]
fn noise_seed_out_of_range_is_rejected() {
    let config = Config { noise_seed: MAX_NOISE_SEED + 1, ..Config::standard() };
    assert_eq!(error_of(config), Some(ConfigError::NoiseSeedOutOfRange));
    let config = Config { noise_seed: u32::MAX, ..Config::standard() };
    assert_eq!(error_of(config), Some(ConfigError::NoiseSeedOutOfRange));
    let config = Config { noise_seed: MAX_NOISE_SEED, ..Config::standard() };
    assert_eq!(error_of(config), None);
}

#[test]
fn first_defect_in_order_is_reported() {
    let base = Config::standard();
    let config = Config { gap_size: 300_000_000, spawn_interval: 0, margin: -1, ..base };
    assert_eq!(error_of(config), Some(ConfigError::GapLargerThanField));
    let config = Config { spawn_interval: 0, margin: -1, gravity: MAX_RATE + 1, ..base };
    assert_eq!(error_of(config), Some(ConfigError::NonPositiveSpawnInterval));
    let config = Config { margin: -1, gravity: MAX_RATE + 1, noise_scale: 0, ..base };
    assert_eq!(error_of(config), Some(ConfigError::LengthOutOfRange));
    let config = Config { gravity: MAX_RATE + 1, spawn_interval: MAX_SPAWN_INTERVAL + 1, ..base };
    assert_eq!(error_of(config), Some(ConfigError::RateOutOfRange));
    let config = Config { spawn_interval: MAX_SPAWN_INTERVAL + 1, noise_scale: 0, ..base };
    assert_eq!(error_of(config), Some(ConfigError::SpawnIntervalTooLong));
    let config = Config { noise_scale: 0, noise_seed: u32::MAX, ..base };
    assert_eq!(error_of(config), Some(ConfigError::NonPositiveNoiseScale));
}
