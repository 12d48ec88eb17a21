//! A session of the game: the state that the host keeps and ticks.

use crate::collision::{detect, Event};
use crate::config::{Config, ConfigError};
use crate::lifecycle::{advance_timer, apply_events, lemma_events_of};
use crate::model::{lemma_ticked_well_formed, GameModel};
use crate::pipes::{
    despawn, generate, lemma_models_push, models, shift_pipes_to_the_left, Pipe, PipeModel,
};
use crate::player::{apply_boost, apply_gravity, Player};
use vstd::prelude::*;

verus! {

/// Whether the game runs.
#[derive(Clone, Copy, Debug, PartialEq, Eq, Structural)]
pub enum GameState {
    /// The host is still getting ready: ticks do nothing.
    Loading,
    /// Every tick advances the simulation. A death puts the player back to
    /// its start and does not leave this state.
    Playing,
}

/// What the host sees of a tick.
#[derive(Debug, PartialEq, Eq)]
pub struct TickResult {
    /// Where the player is after the tick.
    pub player_position: (i64, i64),
    /// The pipes on their way across the field after the tick, oldest first.
    pub obstacles: Vec<Pipe>,
    /// The score after the tick.
    pub score: u64,
    /// Whether the player died in this tick.
    pub fatal_this_tick: bool,
    /// The events of the tick: `Fatal` first, if the player died, then the
    /// gates that scored.
    pub events: Vec<Event>,
}

/// Where the noise source is asked for the opening of a new pipe. Its spatial
/// key is `spawn_x / noise_scale` and its time key is `now` in seconds.
#[derive(Clone, Copy, Debug, PartialEq, Eq, Structural)]
pub struct NoisePoint {
    /// The seed of the noise source.
    pub seed: u32,
    /// The position at which the pipe appears, in millionths of a unit.
    pub spawn_x: i64,
    /// The length over which the noise varies, in millionths of a unit.
    pub noise_scale: i64,
    /// The simulated time at which the pipe appears, in microseconds.
    pub now: u64,
}

/// A session of the game.
#[derive(Debug)]
pub struct Game {
    config: Config,
    state: GameState,
    player: Player,
    pipes: Vec<Pipe>,
    score: u64,
    elapsed: u64,
    timer: i64,
    next_id: u64,
}

impl View for Game {
    type V = GameModel;

    closed spec fn view(&self) -> GameModel {
        GameModel {
            config: self.config,
            state: self.state,
            player: self.player@,
            pipes: models(self.pipes@),
            score: self.score as int,
            elapsed: self.elapsed as int,
            timer: self.timer as int,
            next_id: self.next_id as int,
        }
    }
}

/// Copies a row of pipes.
pub fn snapshot(pipes: &Vec<Pipe>) -> (copy: Vec<Pipe>)
    ensures
        copy@ == pipes@,
{
    let mut copy: Vec<Pipe> = Vec::new();
    let count: usize = pipes.len();
    let mut index: usize = 0;
    while index < count
        invariant
            index <= count,
            count == pipes.len(),
            copy@ == pipes@.take(index as int),
        decreases count - index,
    {
        copy.push(pipes[index]);
        index = index + 1;
    }
    copy
}

impl Game {
    /// Whether the session is in a state that its own functions leave it in.
    pub closed spec fn well_formed(&self) -> bool {
        self@.well_formed()
    }

    /// Begins a session on `config`, or rejects the configuration. A session
    /// begins loading, with the player at its start, no pipe and no score.
    pub fn new(config: Config) -> (outcome: Result<Game, ConfigError>)
        ensures
            outcome is Ok <==> config.valid(),
            outcome matches Err(error) ==> config.defect() == Some(error),
            outcome matches Ok(game) ==> game.well_formed() && game@ == GameModel::initial(config),
    {
        match config.validate() {
            Err(error) => Err(error),
            Ok(()) => {
                let game = Game {
                    config,
                    state: GameState::Loading,
                    player: Player::spawn(&config),
                    pipes: Vec::new(),
                    score: 0,
                    elapsed: 0,
                    timer: 0,
                    next_id: 0,
                };
                assert(game@.pipes =~= Seq::<PipeModel>::empty());
                Ok(game)
            },
        }
    }

    /// Tells the session that the host is ready: from now on ticks advance the
    /// simulation.
    pub fn assets_ready(&mut self)
        requires
            old(self).well_formed(),
        ensures
            final(self).well_formed(),
            final(self)@ == old(self)@.started(),
    {
        self.state = GameState::Playing;
    }

    /// The constants of the session.
    pub fn config(&self) -> (config: Config)
        ensures
            config == self@.config,
    {
        self.config
    }

    /// Whether the session is loading or playing.
    pub fn state(&self) -> (state: GameState)
        ensures
            state == self@.state,
    {
        self.state
    }

    /// The player.
    pub fn player(&self) -> (player: Player)
        ensures
            player@ == self@.player,
    {
        self.player
    }

    /// The pipes on their way across the field, oldest first.
    pub fn pipes(&self) -> (pipes: &Vec<Pipe>)
        ensures
            models(pipes@) == self@.pipes,
            pipes.len() == self@.pipes.len(),
            forall|i: int| 0 <= i < pipes.len() ==> (#[trigger] pipes[i])@ == self@.pipes[i],
    {
        &self.pipes
    }

    /// The gates passed since the player last died.
    pub fn score(&self) -> (score: u64)
        ensures
            score == self@.score,
    {
        self.score
    }

    /// The simulated time so far, in microseconds.
    pub fn elapsed(&self) -> (elapsed: u64)
        ensures
            elapsed == self@.elapsed,
    {
        self.elapsed
    }

    /// Whether a tick of `dt` microseconds would bring a new pipe, so that the
    /// host knows when a noise sample is needed.
    pub fn spawn_due(&self, dt: u32) -> (due: bool)
        requires
            self.well_formed(),
        ensures
            due == (self@.state is Playing && self@.spawns(dt as int)),
    {
        match self.state {
            GameState::Loading => false,
            GameState::Playing => self.timer + dt as i64 >= self.config.spawn_interval,
        }
    }

    /// Where the noise source is to be asked for a pipe that appears in a tick
    /// of `dt` microseconds from now. The noise scale is positive, so that the
    /// spatial key exists.
    pub fn noise_point(&self, dt: u32) -> (point: NoisePoint)
        requires
            self.well_formed(),
            self@.elapsed + dt <= u64::MAX,
        ensures
            point.seed == self@.config.noise_seed,
            point.spawn_x == self@.config.spawn_x(),
            point.noise_scale == self@.config.noise_scale,
            point.noise_scale > 0,
            point.now == self@.elapsed + dt,
    {
        NoisePoint {
            seed: self.config.noise_seed,
            spawn_x: self.config.spawn_position(),
            noise_scale: self.config.noise_scale,
            now: self.elapsed + dt as u64,
        }
    }

    /// Advances the session by one tick of `dt` microseconds.
    ///
    /// While the session is loading the tick does nothing. While it is playing
    /// the tick applies the boost, if `boost_signal` is set, and gravity to the
    /// player; scrolls the pipes, forgets those off the field and, when the
    /// spawn timer fires, adds a pipe whose opening `noise_sample` places;
    /// runs the detector; and applies its events. `noise_sample` is the noise
    /// source's value, in millionths, at [`Game::noise_point`]; it is read only
    /// when a pipe appears.
    ///
    /// The session's clock, which counts microseconds in 64 bits, must have
    /// room for the tick.
    pub fn tick(&mut self, dt: u32, boost_signal: bool, noise_sample: i32) -> (result: TickResult)
        requires
            old(self).well_formed(),
            old(self)@.elapsed + dt <= u64::MAX,
        ensures
            final(self).well_formed(),
            final(self)@ == old(self)@.ticked(dt as int, boost_signal, noise_sample as int),
            result.events@ == old(self)@.events(dt as int, boost_signal, noise_sample as int),
            result.fatal_this_tick == old(self)@.dies(dt as int, boost_signal, noise_sample as int),
            result.score == final(self)@.score,
            result.player_position.0 == final(self)@.player.x,
            result.player_position.1 == final(self)@.player.y,
            models(result.obstacles@) == final(self)@.pipes,
            result.obstacles.len() == final(self)@.pipes.len(),
            forall|i: int|
                0 <= i < result.obstacles.len() ==> (#[trigger] result.obstacles[i])@
                    == final(self)@.pipes[i],
    {
        let config: Config = self.config;
        let ghost before = self@;
        proof {
            lemma_ticked_well_formed(before, dt as int, boost_signal, noise_sample as int);
            lemma_events_of(
                before.dies(dt as int, boost_signal, noise_sample as int),
                before.gates(dt as int, boost_signal, noise_sample as int),
            );
        }
        let mut events: Vec<Event> = Vec::new();
        let mut dies: bool = false;
        match self.state {
            GameState::Loading => {},
            GameState::Playing => {
                if boost_signal {
                    apply_boost(&mut self.player, &config);
                }
                apply_gravity(&mut self.player, &config, dt);
                shift_pipes_to_the_left(&mut self.pipes, &config, dt);
                despawn(&mut self.pipes, &config);
                let fires: bool = advance_timer(&mut self.timer, &config, dt);
                self.elapsed = self.elapsed + dt as u64;
                if fires {
                    let pipe: Pipe = generate(
                        config.spawn_position(),
                        noise_sample,
                        self.next_id,
                        &config,
                    );
                    proof {
                        lemma_models_push(self.pipes@, pipe);
                    }
                    self.pipes.push(pipe);
                    self.next_id = self.next_id + 1;
                }
                events = detect(&self.player, &mut self.pipes, &config);
                dies = events.len() > 0 && events[0] == Event::Fatal;
                apply_events(&events, &mut self.player, &mut self.score, &config);
            },
        }
        TickResult {
            player_position: (self.player.x, self.player.y as i64),
            obstacles: snapshot(&self.pipes),
            score: self.score,
            fatal_this_tick: dies,
            events,
        }
    }
}

} // verus!
