//! The player's body and the integrator that moves it.

use crate::config::{Config, MAX_RATE};
use crate::fixed::{
    lemma_product_bound, lemma_scaled_sign_of_value, magnitude, scale, scaled, MAX_PRODUCT,
};
use crate::geometry::{Aabb, Rect};
use vstd::prelude::*;

verus! {

/// The largest distance from the field's centre line at which a player is
/// still in play under some valid configuration.
pub const MAX_HEIGHT: i128 = 6_000_000_000;

/// The largest speed of a player in play.
pub const MAX_VELOCITY: i128 = 20_000_000_000_000_000;

/// The largest acceleration of a player in play.
pub const MAX_ACCELERATION: i128 = 50_000_000_000_000_000_000_000;

/// The largest magnitude that a player's coordinate or rate can reach in one
/// step from a state in play.
pub const MAX_REACH: i128 = 1_000_000_000_000_000_000_000_000_000_000_000_000;

/// The player's body: where it is and how it moves. Only `y` changes while a
/// round lasts; `x` is pinned.
#[derive(Clone, Copy, Debug, PartialEq, Eq, Structural)]
pub struct Player {
    pub x: i64,
    pub y: i128,
    /// Vertical velocity; upward is positive.
    pub velocity: i128,
    /// Vertical acceleration; upward is positive.
    pub acceleration: i128,
}

/// A player's body over the integers.
pub struct PlayerModel {
    pub x: int,
    pub y: int,
    pub velocity: int,
    pub acceleration: int,
}

impl View for Player {
    type V = PlayerModel;

    open spec fn view(&self) -> PlayerModel {
        PlayerModel {
            x: self.x as int,
            y: self.y as int,
            velocity: self.velocity as int,
            acceleration: self.acceleration as int,
        }
    }
}

impl PlayerModel {
    /// The player as a round begins: at rest on the field's centre line.
    pub open spec fn spawned(config: Config) -> PlayerModel {
        PlayerModel { x: config.player_x(), y: 0, velocity: 0, acceleration: 0 }
    }

    /// The player after a boost: the velocity is overwritten and the fall's
    /// acceleration is cancelled.
    pub open spec fn boosted(self, boost_velocity: int) -> PlayerModel {
        PlayerModel { velocity: boost_velocity, acceleration: 0, ..self }
    }

    /// The player after `dt` microseconds of gravity. Gravity feeds the
    /// acceleration, the new acceleration feeds the velocity, and the new
    /// velocity moves the player.
    pub open spec fn fallen(self, gravity: int, dt: int) -> PlayerModel {
        let acceleration = self.acceleration + scaled(gravity, dt);
        let velocity = self.velocity + scaled(acceleration, dt);
        PlayerModel { x: self.x, y: self.y + scaled(velocity, dt), velocity, acceleration }
    }

    /// The player's bounding box.
    pub open spec fn bounds(self, config: Config) -> Rect {
        Rect::centred(
            self.x,
            self.y,
            config.player_half_extent as int,
            config.player_half_extent as int,
        )
    }

    /// Whether the player has left the field through its floor or ceiling.
    pub open spec fn out_of_field(self, config: Config) -> bool {
        ||| self.y < -config.half_height() - config.player_size
        ||| self.y > config.half_height() + config.player_size
    }

    /// Whether the player is in a state that the game keeps between ticks.
    pub open spec fn in_play(self) -> bool {
        &&& magnitude(self.y) <= MAX_HEIGHT
        &&& magnitude(self.velocity) <= MAX_VELOCITY
        &&& magnitude(self.acceleration) <= MAX_ACCELERATION
    }

    /// Whether the player is in a state that one step from a state in play
    /// can reach.
    pub open spec fn in_reach(self) -> bool {
        &&& magnitude(self.y) <= MAX_REACH
        &&& magnitude(self.velocity) <= MAX_REACH
        &&& magnitude(self.acceleration) <= MAX_REACH
    }
}

/// One step of gravity from a state in play stays in reach.
pub proof fn lemma_fallen_in_reach(player: PlayerModel, gravity: int, dt: int)
    requires
        player.in_play(),
        -MAX_RATE <= gravity <= MAX_RATE,
        0 <= dt <= u32::MAX,
    ensures
        magnitude(gravity * dt) <= MAX_PRODUCT,
        magnitude(player.fallen(gravity, dt).acceleration) <= 50_000_004_294_967_295_000_000,
        magnitude(player.fallen(gravity, dt).acceleration * dt) <= MAX_PRODUCT,
        magnitude(player.fallen(gravity, dt).velocity) <= 215_000_000_000_000_000_000_000_000,
        magnitude(player.fallen(gravity, dt).velocity * dt) <= MAX_PRODUCT,
        player.fallen(gravity, dt).in_reach(),
{
    let limit = u32::MAX as int;
    lemma_product_bound(gravity, dt, MAX_RATE as int, limit);
    let acceleration = player.acceleration + scaled(gravity, dt);
    lemma_product_bound(acceleration, dt, 50_000_004_294_967_295_000_000, limit);
    let velocity = player.velocity + scaled(acceleration, dt);
    lemma_product_bound(velocity, dt, 215_000_000_000_000_000_000_000_000, limit);
}

impl Player {
    /// The player as a round begins: at rest on the field's centre line, a
    /// quarter of the field's width to the left of its centre.
    pub fn spawn(config: &Config) -> (player: Player)
        requires
            config.valid(),
        ensures
            player@ == PlayerModel::spawned(*config),
            player@.in_play(),
    {
        Player { x: -(config.field_width / 4), y: 0, velocity: 0, acceleration: 0 }
    }

    /// The player's bounding box.
    pub fn bounding_box(&self, config: &Config) -> (bounds: Aabb)
        requires
            config.valid(),
            self@.in_reach(),
        ensures
            bounds@ == self@.bounds(*config),
    {
        let half: i128 = config.player_half_extent as i128;
        let x: i128 = self.x as i128;
        Aabb { left: x - half, right: x + half, bottom: self.y - half, top: self.y + half }
    }
}

/// Sets the player's velocity to the boost velocity, whatever it was, and its
/// acceleration to zero.
pub fn apply_boost(player: &mut Player, config: &Config)
    ensures
        final(player)@ == old(player)@.boosted(config.boost_velocity as int),
        final(player).velocity == config.boost_velocity,
{
    player.velocity = config.boost_velocity as i128;
    player.acceleration = 0;
}

/// Advances a player in play by `dt` microseconds of gravity:
/// `acceleration += gravity * dt`, then `velocity += acceleration * dt`, then
/// `y += velocity * dt`, each product taken per second and truncated toward
/// zero. The step may carry the player out of play: it is for the caller to
/// look where it has landed.
///
/// Under a gravity that does not point upward, a player that is not
/// accelerating upward does not gain velocity.
pub fn apply_gravity(player: &mut Player, config: &Config, dt: u32)
    requires
        config.valid(),
        old(player)@.in_play(),
    ensures
        final(player)@ == old(player)@.fallen(config.gravity as int, dt as int),
        final(player)@.in_reach(),
        config.gravity <= 0 && old(player).acceleration <= 0 ==> final(player).acceleration <= 0
            && final(player).velocity <= old(player).velocity,
{
    proof {
        lemma_fallen_in_reach(player@, config.gravity as int, dt as int);
        lemma_scaled_sign_of_value(config.gravity as int, dt as int);
        lemma_scaled_sign_of_value(
            player@.fallen(config.gravity as int, dt as int).acceleration,
            dt as int,
        );
    }
    let step: i128 = dt as i128;
    player.acceleration = player.acceleration + scale(config.gravity as i128, step);
    player.velocity = player.velocity + scale(player.acceleration, step);
    player.y = player.y + scale(player.velocity, step);
}

/// Whether the player is within the field: neither below its floor nor above
/// its ceiling by more than the player's size.
pub fn check_in_bounds(player: &Player, config: &Config) -> (inside: bool)
    requires
        config.valid(),
    ensures
        inside == !player@.out_of_field(*config),
{
    let reach: i128 = (config.field_height / 2 + config.player_size) as i128;
    -reach <= player.y && player.y <= reach
}

} // verus!
