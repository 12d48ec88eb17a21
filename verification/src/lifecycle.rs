//! The spawn timer, and what the events of a tick do to the player and the
//! score.

use crate::collision::{events_of, Event};
use crate::config::Config;
use crate::player::{Player, PlayerModel};
use vstd::prelude::*;

verus! {

/// The test that an event passes when it reports a gate.
pub open spec fn is_scored() -> spec_fn(Event) -> bool {
    |event: Event| event is Scored
}

/// How many gates a list of events reports.
pub open spec fn scored_count(events: Seq<Event>) -> nat {
    events.filter(is_scored()).len()
}

/// Whether a list of events reports the player's death.
pub open spec fn has_fatal(events: Seq<Event>) -> bool {
    events.contains(Event::Fatal)
}

/// Whether the spawn timer fires when `dt` microseconds are added to it.
pub open spec fn timer_fires(timer: int, dt: int, config: Config) -> bool {
    timer + dt >= config.spawn_interval
}

/// The spawn timer after `dt` microseconds: the time since it last fired.
pub open spec fn timer_after(timer: int, dt: int, config: Config) -> int {
    if timer_fires(timer, dt, config) {
        (timer + dt) % (config.spawn_interval as int)
    } else {
        timer + dt
    }
}

/// The events of a tick report a death exactly when the player died, and as
/// many gates as scored.
pub proof fn lemma_events_of(dies: bool, gates: Seq<int>)
    ensures
        has_fatal(events_of(dies, gates)) == dies,
        scored_count(events_of(dies, gates)) == gates.len(),
        events_of(dies, gates).len() == gates.len() + if dies {
            1int
        } else {
            0int
        },
    decreases gates.len(),
{
    let events = events_of(dies, gates);
    if gates.len() == 0 {
        if dies {
            Seq::<Event>::empty().lemma_filter_push(Event::Fatal, is_scored());
        }
    } else {
        let before = gates.drop_last();
        let last = Event::Scored(gates.last() as u64);
        lemma_events_of(dies, before);
        assert(events =~= events_of(dies, before).push(last));
        events_of(dies, before).lemma_filter_push(last, is_scored());
        if dies {
            assert(events[0] == Event::Fatal);
        } else {
            assert(forall|i: int| 0 <= i < events.len() ==> events[i] != Event::Fatal);
        }
    }
}

/// Adds `dt` microseconds to the spawn timer and tells whether it fires. It
/// fires when the time since it last fired reaches the spawn interval, once
/// at most however long `dt` is, and keeps what is left over of the interval.
pub fn advance_timer(timer: &mut i64, config: &Config, dt: u32) -> (fires: bool)
    requires
        config.valid(),
        0 <= *old(timer) < config.spawn_interval,
    ensures
        fires == timer_fires(*old(timer) as int, dt as int, *config),
        *final(timer) == timer_after(*old(timer) as int, dt as int, *config),
        0 <= *final(timer) < config.spawn_interval,
{
    let total: i64 = *timer + dt as i64;
    if total >= config.spawn_interval {
        *timer = total % config.spawn_interval;
        true
    } else {
        *timer = total;
        false
    }
}

/// Puts the player back to where a round begins and the score to zero. The
/// pipes are not touched: they go on scrolling.
pub fn on_fatal(player: &mut Player, score: &mut u64, config: &Config)
    requires
        config.valid(),
    ensures
        final(player)@ == PlayerModel::spawned(*config),
        *final(score) == 0,
{
    *player = Player::spawn(config);
    *score = 0;
}

/// Applies the events of a tick. If one of them is `Fatal`, the player is put
/// back to its start and the score is zero: what scored in the same tick is
/// not counted. Otherwise the score grows by one for each `Scored`, for which
/// it must have room.
pub fn apply_events(events: &Vec<Event>, player: &mut Player, score: &mut u64, config: &Config)
    requires
        config.valid(),
        *old(score) + scored_count(events@) <= u64::MAX,
    ensures
        has_fatal(events@) ==> final(player)@ == PlayerModel::spawned(*config) && *final(score)
            == 0,
        !has_fatal(events@) ==> *final(player) == *old(player) && *final(score) == *old(score)
            + scored_count(events@),
{
    let count: usize = events.len();
    let mut gates: u64 = 0;
    let mut dies: bool = false;
    let mut index: usize = 0;
    while index < count
        invariant
            index <= count,
            count == events.len(),
            gates == scored_count(events@.take(index as int)),
            gates <= index,
            dies == has_fatal(events@.take(index as int)),
        decreases count - index,
    {
        let event: Event = events[index];
        proof {
            let before = events@.take(index as int);
            assert(events@.take(index + 1) =~= before.push(event));
            before.lemma_filter_push(event, is_scored());
            if event == Event::Fatal {
                assert(before.push(event)[index as int] == Event::Fatal);
            }
        }
        match event {
            Event::Fatal => {
                dies = true;
            },
            Event::Scored(_) => {
                gates = gates + 1;
            },
        }
        index = index + 1;
    }
    assert(events@.take(count as int) =~= events@);
    if dies {
        on_fatal(player, score, config);
    } else {
        *score = *score + gates;
    }
}

} // verus!
