//! What holds of the game over any run of ticks.

use crate::collision::{scores, scoring};
use crate::config::Config;
use crate::fixed::{lemma_scaled_sign_of_value, lemma_scaled_whole};
use crate::lifecycle::{has_fatal, lemma_events_of, scored_count};
use crate::model::{
    lemma_ascending_filtered, lemma_filtered_from, lemma_row_ascending, lemma_ticked_well_formed,
    GameModel,
};
use crate::pipes::{gap_center, kept, shifted_all, stays, PipeModel};
use crate::player::PlayerModel;
use vstd::prelude::*;

verus! {

/// What the host hands to one tick.
pub struct Input {
    /// The length of the tick, in microseconds.
    pub dt: int,
    /// Whether a boost arrived.
    pub boost: bool,
    /// The noise sample for a pipe that appears, in millionths.
    pub sample: int,
}

/// Whether every tick of a run has a length that a tick can have.
pub open spec fn valid_inputs(inputs: Seq<Input>) -> bool {
    forall|k: int| 0 <= k < inputs.len() ==> 0 <= (#[trigger] inputs[k]).dt <= u32::MAX
}

/// The state after a run of ticks.
pub open spec fn run(game: GameModel, inputs: Seq<Input>) -> GameModel
    decreases inputs.len(),
{
    if inputs.len() == 0 {
        game
    } else {
        let last = inputs.last();
        run(game, inputs.drop_last()).ticked(last.dt, last.boost, last.sample)
    }
}

/// The identities of the pipes whose gates score in tick `k` of a run.
pub open spec fn gates_at(game: GameModel, inputs: Seq<Input>, k: int) -> Seq<int> {
    run(game, inputs.take(k)).gates(inputs[k].dt, inputs[k].boost, inputs[k].sample)
}

/// Whether the player dies in tick `k` of a run.
pub open spec fn dies_at(game: GameModel, inputs: Seq<Input>, k: int) -> bool {
    run(game, inputs.take(k)).dies(inputs[k].dt, inputs[k].boost, inputs[k].sample)
}

/// The player after a run of gravity steps, with no boost between them.
pub open spec fn fallen_through(player: PlayerModel, gravity: int, steps: Seq<int>) -> PlayerModel
    decreases steps.len(),
{
    if steps.len() == 0 {
        player
    } else {
        fallen_through(player, gravity, steps.drop_last()).fallen(gravity, steps.last())
    }
}

/// Whether the pipe `id` can no longer score: the identity has
/// been given out, and where the pipe is still in the row its gate has
/// scored.
pub open spec fn spent(game: GameModel, id: int) -> bool {
    &&& id < game.next_id
    &&& forall|i: int|
        0 <= i < game.pipes.len() && (#[trigger] game.pipes[i]).id == id ==> game.pipes[i].scored
}

/// While nothing boosts it, a falling player never gains velocity: under a
/// gravity that does not point upward, from a state that does not accelerate
/// upward, the velocity after any number of steps is at most what it was
/// after fewer of them, and the acceleration never points upward.
pub proof fn lemma_fall_never_gains_velocity(
    player: PlayerModel,
    gravity: int,
    steps: Seq<int>,
    earlier: int,
    later: int,
)
    requires
        gravity <= 0,
        player.acceleration <= 0,
        forall|k: int| 0 <= k < steps.len() ==> #[trigger] steps[k] > 0,
        0 <= earlier <= later <= steps.len(),
    ensures
        fallen_through(player, gravity, steps.take(later)).velocity <= fallen_through(
            player,
            gravity,
            steps.take(earlier),
        ).velocity,
        fallen_through(player, gravity, steps.take(later)).acceleration <= 0,
    decreases later,
{
    if later > 0 {
        let before = steps.take(later - 1);
        assert(steps.take(later).drop_last() =~= before);
        let dt = steps[later - 1];
        let start = fallen_through(player, gravity, before);
        lemma_scaled_sign_of_value(gravity, dt);
        lemma_scaled_sign_of_value(start.fallen(gravity, dt).acceleration, dt);
        if earlier < later {
            lemma_fall_never_gains_velocity(player, gravity, steps, earlier, later - 1);
        } else {
            lemma_fall_never_gains_velocity(player, gravity, steps, later - 1, later - 1);
        }
    }
}

/// In a session the same holds of every tick that brings no boost and no
/// death: under a gravity that does not point upward it leaves the player no
/// faster upward than it was.
pub proof fn lemma_tick_without_boost_never_gains_velocity(game: GameModel, dt: int, sample: int)
    requires
        game.well_formed(),
        game.config.gravity <= 0,
        0 <= dt <= u32::MAX,
        !game.dies(dt, false, sample),
    ensures
        game.ticked(dt, false, sample).player.velocity <= game.player.velocity,
        game.ticked(dt, false, sample).player.acceleration <= 0,
{
    lemma_scaled_sign_of_value(game.config.gravity as int, dt);
    lemma_scaled_sign_of_value(game.moved(dt, false).acceleration, dt);
}

/// A boost overwrites: it leaves the boost velocity and no acceleration,
/// whatever the player's velocity and acceleration were, and a second boost
/// changes nothing.
pub proof fn lemma_boost_overwrites(player: PlayerModel, other: PlayerModel, boost_velocity: int)
    ensures
        player.boosted(boost_velocity).velocity == boost_velocity,
        player.boosted(boost_velocity).acceleration == 0,
        player.boosted(boost_velocity).velocity == other.boosted(boost_velocity).velocity,
        player.boosted(boost_velocity).boosted(boost_velocity) == player.boosted(boost_velocity),
        player.boosted(boost_velocity).x == player.x,
        player.boosted(boost_velocity).y == player.y,
{
}

/// Where a pipe's opening lies depends on nothing but the configuration, the
/// spawn position and the noise sample: two pipes generated from the same of
/// these have the same opening, the same segments and the same gate, whatever
/// their identities.
pub proof fn lemma_generation_is_deterministic(
    config: Config,
    spawn_x: int,
    sample: int,
    first_id: int,
    second_id: int,
)
    ensures
        PipeModel::generated(config, spawn_x, sample, first_id).gap_center == PipeModel::generated(
            config,
            spawn_x,
            sample,
            second_id,
        ).gap_center,
        PipeModel::generated(config, spawn_x, sample, first_id).top(config) == PipeModel::generated(
            config,
            spawn_x,
            sample,
            second_id,
        ).top(config),
        PipeModel::generated(config, spawn_x, sample, first_id).bottom(config)
            == PipeModel::generated(config, spawn_x, sample, second_id).bottom(config),
        PipeModel::generated(config, spawn_x, sample, first_id).gate(config)
            == PipeModel::generated(config, spawn_x, sample, second_id).gate(config),
{
}

/// A pipe that scrolls at a whole number of units a second is, after `dt`
/// microseconds, exactly that many millionths times `dt` further left.
pub proof fn lemma_scroll_is_exact(pipe: PipeModel, units_per_second: int, dt: int)
    ensures
        pipe.shifted(units_per_second * 1_000_000, dt).x == pipe.x - units_per_second * dt,
{
    lemma_scaled_whole(units_per_second, dt);
}

/// A pipe never moves to the right: under a scroll speed that is not
/// negative, scrolling for any time leaves it where it was or further left.
pub proof fn lemma_pipes_never_move_right(pipe: PipeModel, scroll_speed: int, dt: int)
    requires
        scroll_speed >= 0,
        dt >= 0,
    ensures
        pipe.shifted(scroll_speed, dt).x <= pipe.x,
        pipe.shifted(scroll_speed, dt).gap_center == pipe.gap_center,
        pipe.shifted(scroll_speed, dt).id == pipe.id,
        pipe.shifted(scroll_speed, dt).scored == pipe.scored,
{
    lemma_scaled_sign_of_value(scroll_speed, dt);
}

/// What a tick can do to the row. A pipe of the row after the tick is either
/// a pipe of the row before, not further right, with its opening where it
/// was and its gate still scored if it had scored; or it is the one new pipe
/// of the tick, at the spawn position, with the identity that was next.
pub proof fn lemma_pipe_after_tick(game: GameModel, dt: int, boost: bool, sample: int, i: int)
    requires
        game.state is Playing,
        game.config.scroll_speed >= 0,
        dt >= 0,
        0 <= i < game.ticked(dt, boost, sample).pipes.len(),
    ensures
        ({
            let after = game.ticked(dt, boost, sample).pipes[i];
            ||| exists|j: int|
                0 <= j < game.pipes.len() && (#[trigger] game.pipes[j]).id == after.id && after.x
                    <= game.pipes[j].x && after.gap_center == game.pipes[j].gap_center && (
                game.pipes[j].scored ==> after.scored)
            ||| game.spawns(dt) && after.id == game.next_id && after.x == game.config.spawn_x()
                && after.gap_center == gap_center(game.config, sample)
        }),
{
    let config = game.config;
    let speed = config.scroll_speed as int;
    let scrolled = shifted_all(game.pipes, speed, dt);
    let remaining = kept(scrolled, config);
    if i < remaining.len() {
        lemma_filtered_from(scrolled, stays(config), i);
        let j = choose|j: int| 0 <= j < scrolled.len() && scrolled[j] == remaining[i];
        lemma_pipes_never_move_right(game.pipes[j], speed, dt);
    }
}

/// A run of ticks keeps the invariant of the session.
pub proof fn lemma_run_well_formed(game: GameModel, inputs: Seq<Input>)
    requires
        game.well_formed(),
        valid_inputs(inputs),
    ensures
        run(game, inputs).well_formed(),
    decreases inputs.len(),
{
    if inputs.len() > 0 {
        let last = inputs.last();
        lemma_run_well_formed(game, inputs.drop_last());
        lemma_ticked_well_formed(run(game, inputs.drop_last()), last.dt, last.boost, last.sample);
    }
}

/// A gate that scores belongs to a pipe of the row, and had not scored.
pub proof fn lemma_scoring_from(
    player: PlayerModel,
    pipes: Seq<PipeModel>,
    config: Config,
    id: int,
)
    requires
        scoring(player, pipes, config).contains(id),
    ensures
        exists|i: int|
            0 <= i < pipes.len() && (#[trigger] pipes[i]).id == id && scores(player, config)(
                pipes[i],
            ),
{
    let k = choose|k: int|
        0 <= k < scoring(player, pipes, config).len() && scoring(player, pipes, config)[k] == id;
    lemma_filtered_from(pipes, scores(player, config), k);
}

/// Within one tick no gate scores twice.
pub proof fn lemma_gates_are_distinct(game: GameModel, dt: int, boost: bool, sample: int)
    requires
        game.well_formed(),
    ensures
        game.gates(dt, boost, sample).no_duplicates(),
{
    if game.state is Playing {
        let config = game.config;
        let row = game.row(dt, sample);
        let test = scores(game.moved(dt, boost), config);
        let next_id = if game.spawns(dt) {
            game.next_id + 1
        } else {
            game.next_id
        };
        lemma_row_ascending(game, dt, sample);
        lemma_ascending_filtered(row, test, next_id);
    }
}

/// A gate that scores in a tick is spent after it.
pub proof fn lemma_scored_gate_is_spent(
    game: GameModel,
    dt: int,
    boost: bool,
    sample: int,
    id: int,
)
    requires
        game.well_formed(),
        0 <= dt <= u32::MAX,
        game.gates(dt, boost, sample).contains(id),
    ensures
        spent(game.ticked(dt, boost, sample), id),
{
    let config = game.config;
    let after = game.ticked(dt, boost, sample);
    let moved = game.moved(dt, boost);
    let row = game.row(dt, sample);
    lemma_ticked_well_formed(game, dt, boost, sample);
    lemma_scoring_from(moved, row, config, id);
    let hit = choose|i: int|
        0 <= i < row.len() && (#[trigger] row[i]).id == id && scores(moved, config)(row[i]);
    assert forall|i: int|
        0 <= i < after.pipes.len() && (#[trigger] after.pipes[i]).id == id implies after.pipes[
            i
        ].scored by {
        if hit < i {
            assert(after.pipes[hit].id < after.pipes[i].id);
        }
    }
}

/// A spent gate does not score in a tick, and is spent after it.
pub proof fn lemma_spent_gate_stays_spent(
    game: GameModel,
    dt: int,
    boost: bool,
    sample: int,
    id: int,
)
    requires
        spent(game, id),
    ensures
        !game.gates(dt, boost, sample).contains(id),
        spent(game.ticked(dt, boost, sample), id),
{
    if game.state is Playing {
        let config = game.config;
        let moved = game.moved(dt, boost);
        let scrolled = shifted_all(game.pipes, config.scroll_speed as int, dt);
        let remaining = kept(scrolled, config);
        let row = game.row(dt, sample);
        assert forall|i: int|
            0 <= i < row.len() && (#[trigger] row[i]).id == id implies row[i].scored by {
            if i < remaining.len() {
                lemma_filtered_from(scrolled, stays(config), i);
            }
        }
        if game.gates(dt, boost, sample).contains(id) {
            lemma_scoring_from(moved, row, config, id);
        }
    }
}

/// A spent gate is spent after any further ticks of a run.
pub proof fn lemma_spent_through(game: GameModel, inputs: Seq<Input>, from: int, to: int, id: int)
    requires
        0 <= from <= to <= inputs.len(),
        spent(run(game, inputs.take(from)), id),
    ensures
        spent(run(game, inputs.take(to)), id),
    decreases to - from,
{
    if from < to {
        lemma_spent_through(game, inputs, from, to - 1, id);
        assert(inputs.take(to).drop_last() =~= inputs.take(to - 1));
        let input = inputs[to - 1];
        lemma_spent_gate_stays_spent(
            run(game, inputs.take(to - 1)),
            input.dt,
            input.boost,
            input.sample,
            id,
        );
    }
}

/// A gate scores at most once in the life of its pipe: over any run of ticks
/// from a state of the session, a pipe whose gate scores in one tick is in no
/// later tick among those that score, however long the player stays in the
/// gate.
pub proof fn lemma_gate_scores_at_most_once(
    game: GameModel,
    inputs: Seq<Input>,
    first: int,
    second: int,
    id: int,
)
    requires
        game.well_formed(),
        valid_inputs(inputs),
        0 <= first < second < inputs.len(),
        gates_at(game, inputs, first).contains(id),
    ensures
        !gates_at(game, inputs, second).contains(id),
{
    let at_first = run(game, inputs.take(first));
    lemma_run_well_formed(game, inputs.take(first));
    lemma_scored_gate_is_spent(
        at_first,
        inputs[first].dt,
        inputs[first].boost,
        inputs[first].sample,
        id,
    );
    assert(inputs.take(first + 1).drop_last() =~= inputs.take(first));
    lemma_spent_through(game, inputs, first + 1, second, id);
    lemma_spent_gate_stays_spent(
        run(game, inputs.take(second)),
        inputs[second].dt,
        inputs[second].boost,
        inputs[second].sample,
        id,
    );
}

/// The score after a tick: zero if the player died in it, whatever scored in
/// the same tick, and otherwise the score before and one more for each gate
/// that scored. It is never negative.
pub proof fn lemma_score_after_tick(game: GameModel, dt: int, boost: bool, sample: int)
    requires
        game.well_formed(),
        game.state is Playing,
    ensures
        has_fatal(game.events(dt, boost, sample)) == game.dies(dt, boost, sample),
        scored_count(game.events(dt, boost, sample)) == game.gates(dt, boost, sample).len(),
        game.dies(dt, boost, sample) ==> game.ticked(dt, boost, sample).score == 0,
        !game.dies(dt, boost, sample) ==> game.ticked(dt, boost, sample).score == game.score
            + scored_count(game.events(dt, boost, sample)),
        game.ticked(dt, boost, sample).score >= 0,
        game.dies(dt, boost, sample) ==> game.ticked(dt, boost, sample).player
            == PlayerModel::spawned(game.config),
{
    lemma_events_of(game.dies(dt, boost, sample), game.gates(dt, boost, sample));
}

/// How many gates score in the ticks `from` up to `to` of a run.
pub open spec fn scored_between(game: GameModel, inputs: Seq<Input>, from: int, to: int) -> int
    decreases to - from,
{
    if from >= to {
        0
    } else {
        scored_between(game, inputs, from, to - 1) + gates_at(game, inputs, to - 1).len()
    }
}

/// The score counts the gates that have scored since the player last died:
/// over a stretch of a run in which the player does not die, it grows by
/// exactly the number of gates that score in it.
pub proof fn lemma_score_counts_gates(game: GameModel, inputs: Seq<Input>, from: int, to: int)
    requires
        0 <= from <= to <= inputs.len(),
        forall|k: int| from <= k < to ==> !dies_at(game, inputs, k),
    ensures
        run(game, inputs.take(to)).score == run(game, inputs.take(from)).score + scored_between(
            game,
            inputs,
            from,
            to,
        ),
    decreases to - from,
{
    if from < to {
        lemma_score_counts_gates(game, inputs, from, to - 1);
        assert(inputs.take(to).drop_last() =~= inputs.take(to - 1));
        assert(!dies_at(game, inputs, to - 1));
    }
}

/// Once the session plays it plays on: no tick leaves the playing state,
/// whether the player dies in it or not.
pub proof fn lemma_run_keeps_playing(game: GameModel, inputs: Seq<Input>)
    requires
        game.state is Playing,
    ensures
        run(game, inputs).state is Playing,
        run(game, inputs).config == game.config,
    decreases inputs.len(),
{
    if inputs.len() > 0 {
        lemma_run_keeps_playing(game, inputs.drop_last());
    }
}

/// A tick while the session is loading changes nothing and reports nothing.
pub proof fn lemma_loading_tick_is_idle(game: GameModel, dt: int, boost: bool, sample: int)
    requires
        game.state is Loading,
    ensures
        game.ticked(dt, boost, sample) == game,
        game.events(dt, boost, sample) =~= Seq::empty(),
{
}

} // verus!
