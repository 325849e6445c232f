//! Timed, radius-bounded zones applying a continuous effect to the player.
use vstd::prelude::*;
use crate::fx::{fx_wf, FX_MAX};
use crate::vec2::{Vec2, v2_wf};
use crate::health::{Health, health_wf};

verus! {

/// What an area effect does while the player stands inside it.
#[derive(Clone, Copy, Debug, PartialEq, Eq, Structural)]
pub enum Effect {
    /// Restore `heal` health per second.
    Heal { heal: i64 },
}

/// The effect's payload is a bounded scalar.
pub open spec fn effect_wf(e: Effect) -> bool {
    match e {
        Effect::Heal { heal } => fx_wf(heal),
    }
}

/// A timed circular zone; pruned once `lifetime` expires.
#[derive(Clone, Copy, Debug, PartialEq, Eq, Structural)]
pub struct AreaEffect {
    pub position: Vec2,
    pub radius: i64,
    pub lifetime: Health,
    pub effect: Effect,
}

/// Well-formedness of an area effect.
pub open spec fn area_effect_wf(a: AreaEffect) -> bool {
    &&& v2_wf(a.position)
    &&& 0 < a.radius <= FX_MAX
    &&& health_wf(a.lifetime)
    &&& effect_wf(a.effect)
}

} // verus!
