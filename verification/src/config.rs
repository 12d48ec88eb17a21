//! The constants of a session, and the check that rejects a bad set of them
//! before the first tick.

use vstd::prelude::*;

verus! {

/// The largest length that a configuration may hold: 4000 field units.
pub const MAX_LENGTH: i64 = 4_000_000_000;

/// The largest magnitude of gravity, boost velocity and scroll speed.
pub const MAX_RATE: i64 = 1_000_000_000_000;

/// The longest spawn interval, in microseconds.
pub const MAX_SPAWN_INTERVAL: i64 = 4_000_000_000_000;

/// The largest noise seed. A fractal noise source derives one seed per octave
/// by counting up from its own, so the last few values are left free.
pub const MAX_NOISE_SEED: u32 = 4_294_967_290;

/// The constants of a session. Lengths are in millionths of a field unit,
/// rates in millionths of a unit per second, the interval in microseconds.
#[derive(Clone, Copy, Debug, PartialEq, Eq, Structural)]
pub struct Config {
    /// What a second adds to the player's vertical acceleration.
    pub gravity: i64,
    /// The vertical velocity that a boost sets.
    pub boost_velocity: i64,
    /// How far a pipe moves to the left in a second.
    pub scroll_speed: i64,
    /// The height of the opening between the two segments of a pipe.
    pub gap_size: i64,
    /// The width of a pipe segment.
    pub segment_width: i64,
    /// The height of a pipe segment.
    pub segment_height: i64,
    /// The width of the scoring gate, which stands in the opening.
    pub gate_width: i64,
    /// The simulated time between two pipes, in microseconds.
    pub spawn_interval: i64,
    /// The width of the visible field, which is centred on zero.
    pub field_width: i64,
    /// The height of the visible field, which is centred on zero.
    pub field_height: i64,
    /// How far beyond the field's edge pipes appear and disappear.
    pub margin: i64,
    /// How far beyond the field's floor or ceiling the player may stray.
    pub player_size: i64,
    /// Half the side of the player's bounding box.
    pub player_half_extent: i64,
    /// The length over which the noise that places the gaps varies, by which
    /// a spawn position is divided to give the noise's spatial key.
    pub noise_scale: i64,
    /// The seed of the noise that places the gaps.
    pub noise_seed: u32,
}

/// Why a configuration is rejected.
#[derive(Clone, Copy, Debug, PartialEq, Eq, Structural)]
pub enum ConfigError {
    /// The opening is taller than the field.
    GapLargerThanField,
    /// The spawn interval is zero or negative.
    NonPositiveSpawnInterval,
    /// A length is negative or above [`MAX_LENGTH`].
    LengthOutOfRange,
    /// Gravity, boost velocity or scroll speed is above [`MAX_RATE`] in
    /// magnitude, or the scroll speed is negative.
    RateOutOfRange,
    /// The spawn interval is above [`MAX_SPAWN_INTERVAL`].
    SpawnIntervalTooLong,
    /// The noise scale is zero or negative.
    NonPositiveNoiseScale,
    /// The noise seed is above [`MAX_NOISE_SEED`].
    NoiseSeedOutOfRange,
}

/// Whether `length` is a length that a configuration may hold.
pub open spec fn length_in_range(length: i64) -> bool {
    0 <= length <= MAX_LENGTH
}

/// Whether `rate` is a rate that a configuration may hold.
pub open spec fn rate_in_range(rate: i64) -> bool {
    -MAX_RATE <= rate <= MAX_RATE
}

impl Config {
    /// Whether every length is in range.
    pub open spec fn lengths_in_range(&self) -> bool {
        &&& length_in_range(self.gap_size)
        &&& length_in_range(self.segment_width)
        &&& length_in_range(self.segment_height)
        &&& length_in_range(self.gate_width)
        &&& length_in_range(self.field_width)
        &&& length_in_range(self.field_height)
        &&& length_in_range(self.margin)
        &&& length_in_range(self.player_size)
        &&& length_in_range(self.player_half_extent)
    }

    /// Whether every rate is in range.
    pub open spec fn rates_in_range(&self) -> bool {
        &&& rate_in_range(self.gravity)
        &&& rate_in_range(self.boost_velocity)
        &&& 0 <= self.scroll_speed <= MAX_RATE
    }

    /// The reason for which this configuration is rejected, if it is. Where
    /// several hold, the first in the order of this function is given.
    pub open spec fn defect(&self) -> Option<ConfigError> {
        if self.gap_size > self.field_height {
            Some(ConfigError::GapLargerThanField)
        } else if self.spawn_interval <= 0 {
            Some(ConfigError::NonPositiveSpawnInterval)
        } else if !self.lengths_in_range() {
            Some(ConfigError::LengthOutOfRange)
        } else if !self.rates_in_range() {
            Some(ConfigError::RateOutOfRange)
        } else if self.spawn_interval > MAX_SPAWN_INTERVAL {
            Some(ConfigError::SpawnIntervalTooLong)
        } else if self.noise_scale <= 0 {
            Some(ConfigError::NonPositiveNoiseScale)
        } else if self.noise_seed > MAX_NOISE_SEED {
            Some(ConfigError::NoiseSeedOutOfRange)
        } else {
            None
        }
    }

    /// Whether a session may run on this configuration.
    pub open spec fn valid(&self) -> bool {
        self.defect() is None
    }

    /// The y coordinate of the field's ceiling; the floor is at its negative.
    pub open spec fn half_height(&self) -> int {
        self.field_height as int / 2
    }

    /// The x coordinate of the field's right edge; the left edge is at its
    /// negative.
    pub open spec fn half_width(&self) -> int {
        self.field_width as int / 2
    }

    /// The x coordinate at which the player is pinned: a quarter of the
    /// field's width to the left of its centre.
    pub open spec fn player_x(&self) -> int {
        -(self.field_width as int / 4)
    }

    /// The x coordinate at which pipes appear.
    pub open spec fn spawn_x(&self) -> int {
        self.half_width() + self.margin
    }

    /// Computes [`Config::spawn_x`].
    pub fn spawn_position(&self) -> (x: i64)
        requires
            self.valid(),
        ensures
            x == self.spawn_x(),
    {
        self.field_width / 2 + self.margin
    }

    /// The constants of the standard game: a field of 480 by 270 units, pipes
    /// of 48 by 146 with an opening of 125 that scroll at 200 units a second
    /// and appear once a second, and a boost of 400 units a second.
    pub fn standard() -> (config: Config)
        ensures
            config.valid(),
            config.gravity == -2_000_000_000,
            config.boost_velocity == 400_000_000,
            config.scroll_speed == 200_000_000,
            config.gap_size == 125_000_000,
            config.segment_width == 48_000_000,
            config.segment_height == 146_000_000,
            config.gate_width == 10_000_000,
            config.spawn_interval == 1_000_000,
            config.field_width == 480_000_000,
            config.field_height == 270_000_000,
            config.margin == 10_000_000,
            config.player_size == 25_000_000,
            config.player_half_extent == 500_000,
            config.noise_scale == 23_400,
            config.noise_seed == 0,
    {
        Config {
            gravity: -2_000_000_000,
            boost_velocity: 400_000_000,
            scroll_speed: 200_000_000,
            gap_size: 125_000_000,
            segment_width: 48_000_000,
            segment_height: 146_000_000,
            gate_width: 10_000_000,
            spawn_interval: 1_000_000,
            field_width: 480_000_000,
            field_height: 270_000_000,
            margin: 10_000_000,
            player_size: 25_000_000,
            player_half_extent: 500_000,
            noise_scale: 23_400,
            noise_seed: 0,
        }
    }

    /// Checks the configuration: `Ok` exactly when it is valid, and otherwise
    /// the first reason that [`Config::defect`] finds. Nothing is clamped.
    pub fn validate(&self) -> (outcome: Result<(), ConfigError>)
        ensures
            outcome is Ok <==> self.valid(),
            outcome matches Err(error) ==> self.defect() == Some(error),
    {
        if self.gap_size > self.field_height {
            return Err(ConfigError::GapLargerThanField);
        }
        if self.spawn_interval <= 0 {
            return Err(ConfigError::NonPositiveSpawnInterval);
        }
        if !(length_fits(self.gap_size) && length_fits(self.segment_width) && length_fits(
            self.segment_height,
        ) && length_fits(self.gate_width) && length_fits(self.field_width) && length_fits(
            self.field_height,
        ) && length_fits(self.margin) && length_fits(self.player_size) && length_fits(
            self.player_half_extent,
        )) {
            return Err(ConfigError::LengthOutOfRange);
        }
        if !(rate_fits(self.gravity) && rate_fits(self.boost_velocity) && 0 <= self.scroll_speed
            && self.scroll_speed <= MAX_RATE) {
            return Err(ConfigError::RateOutOfRange);
        }
        if self.spawn_interval > MAX_SPAWN_INTERVAL {
            return Err(ConfigError::SpawnIntervalTooLong);
        }
        if self.noise_scale <= 0 {
            return Err(ConfigError::NonPositiveNoiseScale);
        }
        if self.noise_seed > MAX_NOISE_SEED {
            return Err(ConfigError::NoiseSeedOutOfRange);
        }
        Ok(())
    }
}

/// Computes [`length_in_range`].
pub fn length_fits(length: i64) -> (fits: bool)
    ensures
        fits == length_in_range(length),
{
    0 <= length && length <= MAX_LENGTH
}

/// Computes [`rate_in_range`].
pub fn rate_fits(rate: i64) -> (fits: bool)
    ensures
        fits == rate_in_range(rate),
{
    -MAX_RATE <= rate && rate <= MAX_RATE
}

} // verus!
