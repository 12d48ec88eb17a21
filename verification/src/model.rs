//! The game as a whole over the integers: what a tick makes of a state, and
//! the invariant that every tick keeps.

use crate::collision::{events_of, fatal, marked, scores, scoring, Event};
use crate::config::{Config, MAX_RATE};
use crate::fixed::{
    lemma_product_bound, lemma_scaled_inverse, lemma_scaled_sign_of_value, lemma_scaled_zero,
};
use crate::game::GameState;
use crate::lifecycle::{timer_after, timer_fires};
use crate::pipes::{
    all_on_track, clamped_sample, kept, lemma_scaled_share, shifted_all, stays, PipeModel,
};
use crate::player::PlayerModel;
use vstd::prelude::*;

verus! {

/// The state of a session over the integers.
pub struct GameModel {
    /// The constants of the session, which no tick changes.
    pub config: Config,
    pub state: GameState,
    pub player: PlayerModel,
    /// The pipes on their way across the field, oldest first.
    pub pipes: Seq<PipeModel>,
    /// The gates passed since the player last died.
    pub score: int,
    /// The simulated time so far, in microseconds.
    pub elapsed: int,
    /// The simulated time since the spawn timer last fired, in microseconds.
    pub timer: int,
    /// The identity that the next pipe gets.
    pub next_id: int,
}

/// How many gates of a row have not scored.
pub open spec fn unscored(pipes: Seq<PipeModel>) -> nat
    decreases pipes.len(),
{
    if pipes.len() == 0 {
        0
    } else {
        unscored(pipes.drop_last()) + if pipes.last().scored {
            0nat
        } else {
            1nat
        }
    }
}

/// Whether the identities of a row grow from pipe to pipe and stay below
/// `next_id`.
pub open spec fn ascending(pipes: Seq<PipeModel>, next_id: int) -> bool {
    &&& forall|i: int| 0 <= i < pipes.len() ==> 0 <= (#[trigger] pipes[i]).id < next_id
    &&& forall|i: int, j: int|
        0 <= i < j < pipes.len() ==> (#[trigger] pipes[i]).id < (#[trigger] pipes[j]).id
}

impl GameModel {
    /// A session before its first tick: loading, the player at its start, no
    /// pipe, no score.
    pub open spec fn initial(config: Config) -> GameModel {
        GameModel {
            config,
            state: GameState::Loading,
            player: PlayerModel::spawned(config),
            pipes: Seq::empty(),
            score: 0,
            elapsed: 0,
            timer: 0,
            next_id: 0,
        }
    }

    /// The player after the tick's motion: the boost first, if there is one,
    /// then gravity.
    pub open spec fn moved(self, dt: int, boost: bool) -> PlayerModel {
        let config = self.config;
        let start = if boost {
            self.player.boosted(config.boost_velocity as int)
        } else {
            self.player
        };
        start.fallen(config.gravity as int, dt)
    }

    /// Whether the spawn timer fires in this tick. However long the tick, it
    /// fires once at most.
    pub open spec fn spawns(self, dt: int) -> bool {
        timer_fires(self.timer, dt, self.config)
    }

    /// The row after the tick's motion: the pipes have scrolled, those off the
    /// field are forgotten, and if the timer fires a new pipe stands at the
    /// spawn position, its opening placed by `sample`.
    pub open spec fn row(self, dt: int, sample: int) -> Seq<PipeModel> {
        let config = self.config;
        let remaining = kept(shifted_all(self.pipes, config.scroll_speed as int, dt), config);
        if self.spawns(dt) {
            remaining.push(PipeModel::generated(config, config.spawn_x(), sample, self.next_id))
        } else {
            remaining
        }
    }

    /// Whether the player dies in this tick.
    pub open spec fn dies(self, dt: int, boost: bool, sample: int) -> bool {
        self.state is Playing && fatal(self.moved(dt, boost), self.row(dt, sample), self.config)
    }

    /// The identities of the pipes whose gates score in this tick.
    pub open spec fn gates(self, dt: int, boost: bool, sample: int) -> Seq<int> {
        if self.state is Playing {
            scoring(self.moved(dt, boost), self.row(dt, sample), self.config)
        } else {
            Seq::empty()
        }
    }

    /// The events of this tick.
    pub open spec fn events(self, dt: int, boost: bool, sample: int) -> Seq<Event> {
        events_of(self.dies(dt, boost, sample), self.gates(dt, boost, sample))
    }

    /// The state after a tick of `dt` microseconds.
    ///
    /// While loading nothing changes. While playing the player and the pipes
    /// move, a pipe may appear, and the detector runs on the result. If the
    /// player dies it is put back to its start and the score is zero, whatever
    /// scored in the same tick; the pipes stay. Otherwise the score grows by
    /// one for each gate that scored.
    pub open spec fn ticked(self, dt: int, boost: bool, sample: int) -> GameModel {
        if self.state is Loading {
            self
        } else {
            let config = self.config;
            let moved = self.moved(dt, boost);
            let row = self.row(dt, sample);
            let dies = self.dies(dt, boost, sample);
            GameModel {
                config,
                state: GameState::Playing,
                player: if dies {
                    PlayerModel::spawned(config)
                } else {
                    moved
                },
                pipes: marked(moved, row, config),
                score: if dies {
                    0
                } else {
                    self.score + self.gates(dt, boost, sample).len()
                },
                elapsed: self.elapsed + dt,
                timer: timer_after(self.timer, dt, config),
                next_id: if self.spawns(dt) {
                    self.next_id + 1
                } else {
                    self.next_id
                },
            }
        }
    }

    /// The state once the host is ready.
    pub open spec fn started(self) -> GameModel {
        GameModel { state: GameState::Playing, ..self }
    }

    /// The invariant of a session: what holds before the first tick and after
    /// every tick.
    pub open spec fn well_formed(self) -> bool {
        let config = self.config;
        &&& config.valid()
        &&& self.player.in_play()
        &&& self.player.x == config.player_x()
        &&& config.gravity <= 0 ==> self.player.acceleration <= 0
        &&& all_on_track(self.pipes)
        &&& ascending(self.pipes, self.next_id)
        &&& 0 <= self.timer < config.spawn_interval
        &&& 0 <= self.score
        &&& self.score + unscored(self.pipes) <= self.next_id
        &&& 0 <= self.next_id <= self.elapsed
    }
}

/// A player that gravity has moved from a state in play, and that is still in
/// the field, is in play: had it been faster, the step would have carried it
/// out of the field.
pub proof fn lemma_survivor_in_play(before: PlayerModel, config: Config, dt: int)
    requires
        config.valid(),
        before.in_play(),
        0 <= dt <= u32::MAX,
        !before.fallen(config.gravity as int, dt).out_of_field(config),
    ensures
        before.fallen(config.gravity as int, dt).in_play(),
{
    let after = before.fallen(config.gravity as int, dt);
    if dt == 0 {
        lemma_scaled_zero(config.gravity as int);
        lemma_scaled_zero(after.acceleration);
        lemma_scaled_zero(after.velocity);
    } else {
        lemma_scaled_inverse(after.velocity, dt, 12_000_000_000);
        lemma_scaled_inverse(after.acceleration, dt, 40_000_000_000_000_000);
    }
}

/// A row with one more pipe has one more gate to score, unless the pipe's has
/// scored.
pub proof fn lemma_unscored_push(pipes: Seq<PipeModel>, pipe: PipeModel)
    ensures
        unscored(pipes.push(pipe)) == unscored(pipes) + if pipe.scored {
            0nat
        } else {
            1nat
        },
{
    assert(pipes.push(pipe).drop_last() =~= pipes);
}

/// Scrolling changes no gate.
pub proof fn lemma_unscored_shifted(pipes: Seq<PipeModel>, scroll_speed: int, dt: int)
    ensures
        unscored(shifted_all(pipes, scroll_speed, dt)) == unscored(pipes),
    decreases pipes.len(),
{
    if pipes.len() > 0 {
        lemma_unscored_shifted(pipes.drop_last(), scroll_speed, dt);
        assert(shifted_all(pipes, scroll_speed, dt).drop_last() =~= shifted_all(
            pipes.drop_last(),
            scroll_speed,
            dt,
        ));
    }
}

/// Forgetting pipes leaves no more gates to score.
pub proof fn lemma_unscored_kept(pipes: Seq<PipeModel>, config: Config)
    ensures
        unscored(kept(pipes, config)) <= unscored(pipes),
    decreases pipes.len(),
{
    reveal(Seq::filter);
    if pipes.len() > 0 {
        let before = pipes.drop_last();
        lemma_unscored_kept(before, config);
        lemma_unscored_push(kept(before, config), pipes.last());
    }
}

/// Every gate that scores is one gate fewer to score.
pub proof fn lemma_unscored_marked(player: PlayerModel, pipes: Seq<PipeModel>, config: Config)
    ensures
        unscored(marked(player, pipes, config)) + scoring(player, pipes, config).len() == unscored(
            pipes,
        ),
    decreases pipes.len(),
{
    reveal(Seq::filter);
    if pipes.len() > 0 {
        let before = pipes.drop_last();
        lemma_unscored_marked(player, before, config);
        assert(marked(player, pipes, config).drop_last() =~= marked(player, before, config));
    }
}

/// A pipe that passes a filter passes its test and was in the row before.
pub proof fn lemma_filtered_from(pipes: Seq<PipeModel>, test: spec_fn(PipeModel) -> bool, i: int)
    requires
        0 <= i < pipes.filter(test).len(),
    ensures
        test(pipes.filter(test)[i]),
        exists|j: int| 0 <= j < pipes.len() && pipes[j] == pipes.filter(test)[i],
{
    let pipe = pipes.filter(test)[i];
    pipes.lemma_filter_contains_rev(test, pipe);
}

/// A filter keeps the order of the pipes that pass it.
pub proof fn lemma_ascending_filtered(
    pipes: Seq<PipeModel>,
    test: spec_fn(PipeModel) -> bool,
    next_id: int,
)
    requires
        ascending(pipes, next_id),
    ensures
        ascending(pipes.filter(test), next_id),
    decreases pipes.len(),
{
    reveal(Seq::filter);
    if pipes.len() > 0 {
        let before = pipes.drop_last();
        let last = pipes.last();
        lemma_ascending_filtered(before, test, next_id);
        let rest = before.filter(test);
        assert forall|i: int| 0 <= i < rest.len() implies (#[trigger] rest[i]).id < last.id by {
            lemma_filtered_from(before, test, i);
        }
    }
}

/// The row that the detector sees keeps the identities in order: scrolling
/// changes none, forgetting keeps the order, and a new pipe gets the next one.
pub proof fn lemma_row_ascending(game: GameModel, dt: int, sample: int)
    requires
        ascending(game.pipes, game.next_id),
        0 <= game.next_id,
    ensures
        ascending(
            game.row(dt, sample),
            if game.spawns(dt) {
                game.next_id + 1
            } else {
                game.next_id
            },
        ),
{
    let config = game.config;
    let scrolled = shifted_all(game.pipes, config.scroll_speed as int, dt);
    lemma_ascending_filtered(scrolled, stays(config), game.next_id);
}

/// A tick keeps the invariant.
pub proof fn lemma_ticked_well_formed(game: GameModel, dt: int, boost: bool, sample: int)
    requires
        game.well_formed(),
        0 <= dt <= u32::MAX,
    ensures
        game.ticked(dt, boost, sample).well_formed(),
        game.score + game.gates(dt, boost, sample).len() <= game.ticked(dt, boost, sample).next_id,
{
    let config = game.config;
    if game.state is Playing {
        let moved = game.moved(dt, boost);
        let speed = config.scroll_speed as int;
        let scrolled = shifted_all(game.pipes, speed, dt);
        let remaining = kept(scrolled, config);
        let row = game.row(dt, sample);

        // The player.
        let start = if boost {
            game.player.boosted(config.boost_velocity as int)
        } else {
            game.player
        };
        if !game.dies(dt, boost, sample) {
            lemma_survivor_in_play(start, config, dt);
        }
        lemma_scaled_sign_of_value(config.gravity as int, dt);

        // The pipes stay on track.
        lemma_scaled_sign_of_value(speed, dt);
        lemma_product_bound(speed, dt, MAX_RATE as int, u32::MAX as int);
        assert forall|i: int| 0 <= i < remaining.len() implies (
        #[trigger] remaining[i]).on_track() by {
            lemma_filtered_from(scrolled, stays(config), i);
        }
        lemma_scaled_share(config.half_height(), clamped_sample(sample));

        // The identities grow.
        lemma_row_ascending(game, dt, sample);

        // The score.
        lemma_unscored_shifted(game.pipes, speed, dt);
        lemma_unscored_kept(scrolled, config);
        if game.spawns(dt) {
            lemma_unscored_push(
                remaining,
                PipeModel::generated(config, config.spawn_x(), sample, game.next_id),
            );
        }
        lemma_unscored_marked(moved, row, config);
    }
}

} // verus!
