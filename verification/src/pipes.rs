//! Pipes: how one is laid out around its gap, how the row of them scrolls, and
//! when one appears or is forgotten.

use crate::config::{Config, MAX_LENGTH, MAX_RATE};
use crate::fixed::{lemma_product_bound, magnitude, scale, scaled};
use crate::geometry::{Aabb, Rect};
use vstd::prelude::*;

verus! {

/// The largest distance from the field's centre at which a pipe is still on
/// its way across the field under some valid configuration.
pub const MAX_PIPE_X: i64 = 10_000_000_000;

/// A noise sample of one, in millionths: samples lie between this and its
/// negative.
pub const FULL_SAMPLE: i32 = 1_000_000;

/// A pipe: two solid segments with an opening between them, and in the opening
/// a gate that scores once.
#[derive(Clone, Copy, Debug, PartialEq, Eq, Structural)]
pub struct Pipe {
    /// The pipe's identity: no two pipes of a session share one.
    pub id: u64,
    /// The x coordinate of the pipe's centre line.
    pub x: i64,
    /// The y coordinate of the middle of the opening, fixed when the pipe
    /// appears.
    pub gap_center: i64,
    /// Whether this pipe's gate has scored.
    pub scored: bool,
}

/// A pipe over the integers.
pub struct PipeModel {
    pub id: int,
    pub x: int,
    pub gap_center: int,
    pub scored: bool,
}

impl View for Pipe {
    type V = PipeModel;

    open spec fn view(&self) -> PipeModel {
        PipeModel {
            id: self.id as int,
            x: self.x as int,
            gap_center: self.gap_center as int,
            scored: self.scored,
        }
    }
}

/// A noise sample brought into the range that the noise source promises.
pub open spec fn clamped_sample(sample: int) -> int {
    if sample < -FULL_SAMPLE {
        -FULL_SAMPLE as int
    } else if sample > FULL_SAMPLE {
        FULL_SAMPLE as int
    } else {
        sample
    }
}

/// Where the noise puts the middle of an opening: the sample's share of half
/// the field's height.
pub open spec fn gap_center(config: Config, sample: int) -> int {
    scaled(config.half_height(), clamped_sample(sample))
}

impl PipeModel {
    /// The pipe that appears at `spawn_x` for a noise sample: its gate has not
    /// scored.
    pub open spec fn generated(config: Config, spawn_x: int, sample: int, id: int) -> PipeModel {
        PipeModel { id, x: spawn_x, gap_center: gap_center(config, sample), scored: false }
    }

    /// The upper solid segment: from the top of the opening upward.
    pub open spec fn top(self, config: Config) -> Rect {
        Rect {
            left: self.x - config.segment_width / 2,
            right: self.x + config.segment_width / 2,
            bottom: self.gap_center + config.gap_size / 2,
            top: self.gap_center + config.gap_size / 2 + config.segment_height,
        }
    }

    /// The lower solid segment: from the bottom of the opening downward.
    pub open spec fn bottom(self, config: Config) -> Rect {
        Rect {
            left: self.x - config.segment_width / 2,
            right: self.x + config.segment_width / 2,
            bottom: self.gap_center - config.gap_size / 2 - config.segment_height,
            top: self.gap_center - config.gap_size / 2,
        }
    }

    /// The scoring gate: as tall as the opening and centred in it.
    pub open spec fn gate(self, config: Config) -> Rect {
        Rect {
            left: self.x - config.gate_width / 2,
            right: self.x + config.gate_width / 2,
            bottom: self.gap_center - config.gap_size / 2,
            top: self.gap_center + config.gap_size / 2,
        }
    }

    /// The pipe after scrolling for `dt` microseconds.
    pub open spec fn shifted(self, scroll_speed: int, dt: int) -> PipeModel {
        PipeModel { x: self.x - scaled(scroll_speed, dt), ..self }
    }

    /// Whether the pipe's right edge has passed the left edge of the field by
    /// more than the margin.
    pub open spec fn off_field(self, config: Config) -> bool {
        self.x + config.segment_width / 2 < -config.half_width() - config.margin
    }

    /// Whether the pipe is where the game keeps pipes between ticks.
    pub open spec fn on_track(self) -> bool {
        &&& magnitude(self.x) <= MAX_PIPE_X
        &&& magnitude(self.gap_center) <= MAX_LENGTH
    }
}

/// The pipes of a row over the integers.
pub open spec fn models(pipes: Seq<Pipe>) -> Seq<PipeModel> {
    pipes.map_values(|pipe: Pipe| pipe@)
}

/// Whether every pipe of a row is on track.
pub open spec fn all_on_track(pipes: Seq<PipeModel>) -> bool {
    forall|i: int| 0 <= i < pipes.len() ==> (#[trigger] pipes[i]).on_track()
}

/// The row after scrolling for `dt` microseconds: every pipe has moved by the
/// same distance.
pub open spec fn shifted_all(pipes: Seq<PipeModel>, scroll_speed: int, dt: int) -> Seq<PipeModel> {
    Seq::new(pipes.len(), |i: int| pipes[i].shifted(scroll_speed, dt))
}

/// The test that a pipe passes while it is not off the field.
pub open spec fn stays(config: Config) -> spec_fn(PipeModel) -> bool {
    |pipe: PipeModel| !pipe.off_field(config)
}

/// The row without the pipes that are off the field, the others in their
/// order.
pub open spec fn kept(pipes: Seq<PipeModel>, config: Config) -> Seq<PipeModel> {
    pipes.filter(stays(config))
}

/// The test of [`stays`] on a pipe as the machine holds it.
pub open spec fn stays_on_field(config: Config) -> spec_fn(Pipe) -> bool {
    |pipe: Pipe| !pipe@.off_field(config)
}

/// The row of a longer vector is the row of the shorter and one more pipe.
pub proof fn lemma_models_push(pipes: Seq<Pipe>, pipe: Pipe)
    ensures
        models(pipes.push(pipe)) == models(pipes).push(pipe@),
{
}

/// Lays out the pipe that appears at `spawn_x` for the noise sample `sample`,
/// in millionths. The middle of the opening is the sample's share of half the
/// field's height; a sample beyond one in magnitude counts as one.
pub fn generate(spawn_x: i64, sample: i32, id: u64, config: &Config) -> (pipe: Pipe)
    requires
        config.valid(),
    ensures
        pipe@ == PipeModel::generated(*config, spawn_x as int, sample as int, id as int),
        magnitude(pipe.gap_center as int) <= config.half_height(),
{
    let share: i32 = if sample < -FULL_SAMPLE {
        -FULL_SAMPLE
    } else if sample > FULL_SAMPLE {
        FULL_SAMPLE
    } else {
        sample
    };
    let half: i64 = config.field_height / 2;
    proof {
        lemma_scaled_share(half as int, share as int);
    }
    let center: i128 = scale(half as i128, share as i128);
    Pipe { id, x: spawn_x, gap_center: center as i64, scored: false }
}

/// A share of a length that is not negative is no longer than the length.
pub proof fn lemma_scaled_share(length: int, share: int)
    requires
        0 <= length <= MAX_LENGTH,
        -FULL_SAMPLE <= share <= FULL_SAMPLE,
    ensures
        magnitude(length * share) <= MAX_LENGTH * FULL_SAMPLE,
        magnitude(scaled(length, share)) <= length,
{
    assert(-(length * 1_000_000) <= length * share <= length * 1_000_000) by (nonlinear_arith)
        requires
            0 <= length,
            -1_000_000 <= share <= 1_000_000,
    ;
}

impl Pipe {
    /// The upper solid segment.
    pub fn top(&self, config: &Config) -> (segment: Aabb)
        requires
            config.valid(),
        ensures
            segment@ == self@.top(*config),
    {
        let x: i128 = self.x as i128;
        let half_width: i128 = (config.segment_width / 2) as i128;
        let opening: i128 = self.gap_center as i128 + (config.gap_size / 2) as i128;
        Aabb {
            left: x - half_width,
            right: x + half_width,
            bottom: opening,
            top: opening + config.segment_height as i128,
        }
    }

    /// The lower solid segment.
    pub fn bottom(&self, config: &Config) -> (segment: Aabb)
        requires
            config.valid(),
        ensures
            segment@ == self@.bottom(*config),
    {
        let x: i128 = self.x as i128;
        let half_width: i128 = (config.segment_width / 2) as i128;
        let opening: i128 = self.gap_center as i128 - (config.gap_size / 2) as i128;
        Aabb {
            left: x - half_width,
            right: x + half_width,
            bottom: opening - config.segment_height as i128,
            top: opening,
        }
    }

    /// The scoring gate.
    pub fn gate(&self, config: &Config) -> (gate: Aabb)
        requires
            config.valid(),
        ensures
            gate@ == self@.gate(*config),
    {
        let x: i128 = self.x as i128;
        let half_width: i128 = (config.gate_width / 2) as i128;
        let half_gap: i128 = (config.gap_size / 2) as i128;
        let center: i128 = self.gap_center as i128;
        Aabb {
            left: x - half_width,
            right: x + half_width,
            bottom: center - half_gap,
            top: center + half_gap,
        }
    }

    /// Whether the pipe's right edge has passed the left edge of the field by
    /// more than the margin.
    pub fn is_off_field(&self, config: &Config) -> (off: bool)
        requires
            config.valid(),
        ensures
            off == self@.off_field(*config),
    {
        let right: i128 = self.x as i128 + (config.segment_width / 2) as i128;
        right < -((config.field_width / 2) as i128) - config.margin as i128
    }
}

/// Moves every pipe to the left by what the scroll speed covers in `dt`
/// microseconds.
pub fn shift_pipes_to_the_left(pipes: &mut Vec<Pipe>, config: &Config, dt: u32)
    requires
        config.valid(),
        all_on_track(models(old(pipes)@)),
    ensures
        final(pipes).len() == old(pipes).len(),
        forall|i: int|
            0 <= i < final(pipes).len() ==> (#[trigger] final(pipes)[i])@ == old(pipes)[i]@.shifted(
                config.scroll_speed as int,
                dt as int,
            ),
        forall|i: int|
            0 <= i < final(pipes).len() ==> (#[trigger] final(pipes)[i]).x <= old(pipes)[i].x,
        models(final(pipes)@) == shifted_all(
            models(old(pipes)@),
            config.scroll_speed as int,
            dt as int,
        ),
{
    proof {
        lemma_product_bound(
            config.scroll_speed as int,
            dt as int,
            MAX_RATE as int,
            u32::MAX as int,
        );
        assert(config.scroll_speed * dt >= 0) by (nonlinear_arith)
            requires
                config.scroll_speed >= 0,
                dt >= 0,
        ;
    }
    let distance: i128 = scale(config.scroll_speed as i128, dt as i128);
    let count: usize = pipes.len();
    let mut index: usize = 0;
    while index < count
        invariant
            index <= count,
            pipes.len() == count,
            count == old(pipes).len(),
            0 <= distance <= 4_294_967_295_000_000,
            distance == scaled(config.scroll_speed as int, dt as int),
            all_on_track(models(old(pipes)@)),
            forall|i: int|
                0 <= i < index ==> (#[trigger] pipes[i])@ == old(pipes)[i]@.shifted(
                    config.scroll_speed as int,
                    dt as int,
                ),
            forall|i: int| index <= i < count ==> #[trigger] pipes[i] == old(pipes)[i],
        decreases count - index,
    {
        let pipe: Pipe = pipes[index];
        assert(models(old(pipes)@)[index as int].on_track());
        let x: i128 = pipe.x as i128 - distance;
        pipes.set(index, Pipe { x: x as i64, ..pipe });
        index = index + 1;
    }
    assert(models(pipes@) =~= shifted_all(
        models(old(pipes)@),
        config.scroll_speed as int,
        dt as int,
    ));
}

/// Forgets every pipe whose right edge has passed the left edge of the field
/// by more than the margin. The others stay, in their order.
pub fn despawn(pipes: &mut Vec<Pipe>, config: &Config)
    requires
        config.valid(),
    ensures
        final(pipes)@ == old(pipes)@.filter(stays_on_field(*config)),
        models(final(pipes)@) == kept(models(old(pipes)@), *config),
{
    let mut staying: Vec<Pipe> = Vec::new();
    let count: usize = pipes.len();
    let mut index: usize = 0;
    while index < count
        invariant
            index <= count,
            count == pipes.len(),
            config.valid(),
            staying@ == pipes@.take(index as int).filter(stays_on_field(*config)),
            models(staying@) == kept(models(pipes@.take(index as int)), *config),
        decreases count - index,
    {
        let pipe: Pipe = pipes[index];
        proof {
            let before = pipes@.take(index as int);
            assert(pipes@.take(index + 1) =~= before.push(pipe));
            lemma_models_push(before, pipe);
            models(before).lemma_filter_push(pipe@, stays(*config));
            before.lemma_filter_push(pipe, stays_on_field(*config));
        }
        if !pipe.is_off_field(config) {
            staying.push(pipe);
        }
        index = index + 1;
    }
    assert(pipes@.take(count as int) =~= pipes@);
    *pipes = staying;
}

} // verus!
