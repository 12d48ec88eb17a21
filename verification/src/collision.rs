//! The detector that tells, once a tick, whether the player has died and
//! which gates it has passed.

use crate::config::Config;
use crate::geometry::Aabb;
use crate::pipes::{lemma_models_push, models, Pipe, PipeModel};
use crate::player::{check_in_bounds, Player, PlayerModel};
use vstd::prelude::*;

verus! {

/// What the detector reports.
#[derive(Clone, Copy, Debug, PartialEq, Eq, Structural)]
pub enum Event {
    /// The player touched a solid segment or left the field.
    Fatal,
    /// The player passed through the pipe with this identity.
    Scored(u64),
}

/// Whether the player touches one of the two solid segments of a pipe.
pub open spec fn hits(player: PlayerModel, pipe: PipeModel, config: Config) -> bool {
    ||| player.bounds(config).intersects(pipe.top(config))
    ||| player.bounds(config).intersects(pipe.bottom(config))
}

/// Whether the player dies: it has left the field, or it touches a solid
/// segment of some pipe.
pub open spec fn fatal(player: PlayerModel, pipes: Seq<PipeModel>, config: Config) -> bool {
    ||| player.out_of_field(config)
    ||| exists|i: int| 0 <= i < pipes.len() && hits(player, #[trigger] pipes[i], config)
}

/// The test that a pipe passes when its gate scores now: it has not
/// scored before and the player touches it.
pub open spec fn scores(player: PlayerModel, config: Config) -> spec_fn(PipeModel) -> bool {
    |pipe: PipeModel| !pipe.scored && player.bounds(config).intersects(pipe.gate(config))
}

/// The identities of the pipes whose gates score now, in the order of the
/// row.
pub open spec fn scoring(player: PlayerModel, pipes: Seq<PipeModel>, config: Config) -> Seq<int> {
    pipes.filter(scores(player, config)).map_values(|pipe: PipeModel| pipe.id)
}

/// The row after the detector has run: the gates that score now have scored,
/// and nothing else has changed.
pub open spec fn marked(player: PlayerModel, pipes: Seq<PipeModel>, config: Config) -> Seq<
    PipeModel,
> {
    Seq::new(
        pipes.len(),
        |i: int|
            if scores(player, config)(pipes[i]) {
                PipeModel { scored: true, ..pipes[i] }
            } else {
                pipes[i]
            },
    )
}

/// The events of a tick: `Fatal` first and once, if the player dies, then one
/// `Scored` for each gate that scores.
pub open spec fn events_of(dies: bool, gates: Seq<int>) -> Seq<Event> {
    let scored = gates.map_values(|id: int| Event::Scored(id as u64));
    if dies {
        seq![Event::Fatal] + scored
    } else {
        scored
    }
}

/// What scores in a row with one more pipe.
pub proof fn lemma_scoring_push(
    player: PlayerModel,
    pipes: Seq<PipeModel>,
    pipe: PipeModel,
    config: Config,
)
    ensures
        scoring(player, pipes.push(pipe), config) == if scores(player, config)(pipe) {
            scoring(player, pipes, config).push(pipe.id)
        } else {
            scoring(player, pipes, config)
        },
{
    pipes.lemma_filter_push(pipe, scores(player, config));
    let before = pipes.filter(scores(player, config));
    assert(before.push(pipe).map_values(|pipe: PipeModel| pipe.id) =~= before.map_values(
        |pipe: PipeModel| pipe.id,
    ).push(pipe.id));
}

/// Whether the player's box touches one of the two solid segments of a pipe.
pub fn hits_pipe(bounds: &Aabb, pipe: &Pipe, config: &Config) -> (hit: bool)
    requires
        config.valid(),
    ensures
        hit == (bounds@.intersects(pipe@.top(*config)) || bounds@.intersects(
            pipe@.bottom(*config),
        )),
{
    bounds.intersects(&pipe.top(config)) || bounds.intersects(&pipe.bottom(config))
}

/// Runs the detector on the state after the tick's motion.
///
/// The player dies when it has left the field or its box touches a solid
/// segment; one `Fatal` reports that, however many segments it touches. Each
/// gate that the box touches and that has not scored before scores: it is
/// reported with the identity of its pipe and marked, so that it never scores
/// again. Both kinds can come in one tick: the gates are then marked all the
/// same, and it is for the one who applies the events to let `Fatal` win.
pub fn detect(player: &Player, pipes: &mut Vec<Pipe>, config: &Config) -> (events: Vec<Event>)
    requires
        config.valid(),
        player@.in_reach(),
    ensures
        events@ == events_of(
            fatal(player@, models(old(pipes)@), *config),
            scoring(player@, models(old(pipes)@), *config),
        ),
        final(pipes).len() == old(pipes).len(),
        forall|i: int|
            0 <= i < final(pipes).len() ==> (#[trigger] final(pipes)[i]) == if scores(
                player@,
                *config,
            )(old(pipes)[i]@) {
                Pipe { scored: true, ..old(pipes)[i] }
            } else {
                old(pipes)[i]
            },
        models(final(pipes)@) == marked(player@, models(old(pipes)@), *config),
{
    let bounds: Aabb = player.bounding_box(config);
    let count: usize = pipes.len();
    let mut dies: bool = !check_in_bounds(player, config);
    let mut index: usize = 0;
    while index < count && !dies
        invariant
            index <= count,
            count == pipes.len(),
            pipes@ == old(pipes)@,
            config.valid(),
            bounds@ == player@.bounds(*config),
            dies ==> fatal(player@, models(pipes@), *config),
            !dies ==> !player@.out_of_field(*config),
            !dies ==> forall|i: int|
                0 <= i < index ==> !hits(player@, #[trigger] models(pipes@)[i], *config),
        decreases count - index,
    {
        if hits_pipe(&bounds, &pipes[index], config) {
            assert(hits(player@, models(pipes@)[index as int], *config));
            dies = true;
        }
        index = index + 1;
    }
    let mut events: Vec<Event> = Vec::new();
    if dies {
        events.push(Event::Fatal);
    }
    let mut index: usize = 0;
    while index < count
        invariant
            index <= count,
            count == pipes.len(),
            count == old(pipes).len(),
            config.valid(),
            bounds@ == player@.bounds(*config),
            events@ == events_of(
                dies,
                scoring(player@, models(old(pipes)@.take(index as int)), *config),
            ),
            forall|i: int|
                0 <= i < index ==> (#[trigger] pipes[i]) == if scores(player@, *config)(
                    old(pipes)[i]@,
                ) {
                    Pipe { scored: true, ..old(pipes)[i] }
                } else {
                    old(pipes)[i]
                },
            forall|i: int| index <= i < count ==> #[trigger] pipes[i] == old(pipes)[i],
        decreases count - index,
    {
        let pipe: Pipe = pipes[index];
        proof {
            let before = old(pipes)@.take(index as int);
            assert(old(pipes)@.take(index + 1) =~= before.push(pipe));
            lemma_models_push(before, pipe);
            lemma_scoring_push(player@, models(before), pipe@, *config);
        }
        if !pipe.scored && bounds.intersects(&pipe.gate(config)) {
            events.push(Event::Scored(pipe.id));
            pipes.set(index, Pipe { scored: true, ..pipe });
        }
        index = index + 1;
    }
    assert(old(pipes)@.take(count as int) =~= old(pipes)@);
    events
}

} // verus!
