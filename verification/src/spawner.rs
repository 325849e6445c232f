//! Wave scheduling: queued definitions of future spawners.
//!
//! A `Wave` is a FIFO queue of groups; firing a wave turns each group into
//! a `Spawner`, a timed placeholder that converts into live enemies once
//! its countdown elapses. Spawners never produce entities early and never
//! outlive their firing tick.
use vstd::prelude::*;
use crate::fx::{fx_wf, FX_MAX};
use crate::vec2::{Vec2, v2_wf};
use crate::entity::{EnemyInfo, enemy_info_wf};
use crate::physics::Bounds;

verus! {

/// A batch of enemy templates realized together, plus the radius the
/// spawner is drawn with and the delay before it fires.
#[derive(Debug)]
pub struct WaveGroup {
    pub enemies: Vec<EnemyInfo>,
    pub radius: i64,
    pub spawn_time: i64,
}

/// Every template is well formed and the timing is positive.
pub open spec fn wave_group_wf(g: WaveGroup, b: Bounds) -> bool {
    &&& forall|i: int| 0 <= i < g.enemies@.len() ==> enemy_info_wf(#[trigger] g.enemies@[i], b)
    &&& 0 < g.radius <= FX_MAX
    &&& 0 < g.spawn_time <= FX_MAX
}

/// An ordered queue of groups, consumed when the arena is cleared.
#[derive(Debug)]
pub struct Wave {
    pub groups: Vec<WaveGroup>,
}

/// Every group of the wave is well formed.
pub open spec fn wave_wf(w: Wave, b: Bounds) -> bool {
    forall|i: int| 0 <= i < w.groups@.len() ==> wave_group_wf(#[trigger] w.groups@[i], b)
}

/// A timed placeholder that converts into its group's enemies when
/// `time_left` runs out.
#[derive(Debug)]
pub struct Spawner {
    pub position: Vec2,
    pub spawn_group: WaveGroup,
    pub time_left: i64,
    pub time_left_max: i64,
}

/// Well-formedness of a spawner within arena `b`.
pub open spec fn spawner_wf(s: Spawner, b: Bounds) -> bool {
    &&& v2_wf(s.position)
    &&& wave_group_wf(s.spawn_group, b)
    &&& fx_wf(s.time_left)
    &&& 0 < s.time_left_max <= FX_MAX
}

} // verus!
