//! Deferred-notification and deferred-mutation queues.
//!
//! `Event`s are sound cues appended by the simulation and drained once per
//! frame by the audio collaborator; the model never reads them back.
//! `Commands` is a write buffer the collision and combat passes fill with
//! pending spawns; it is drained strictly after the pass that produced it,
//! so no pass mutates the entity collection while scanning it.
use vstd::prelude::*;
use crate::fx::{fx_wf, FX_MAX};
use crate::vec2::{Vec2, v2_wf};
use crate::entity::{Color, EnemyInfo, color_wf, enemy_info_wf};
use crate::physics::Bounds;

verus! {

/// A sound cue for the audio collaborator.
#[derive(Clone, Copy, Debug, PartialEq, Eq, Structural)]
pub enum EventSound {
    Bounce,
    BodyHit,
    HeadHit,
    Death,
}

/// A deferred notification.
#[derive(Clone, Copy, Debug, PartialEq, Eq, Structural)]
pub enum Event {
    Sound { sound: EventSound },
}

/// A deferred mutation, executed after the pass that queued it.
#[derive(Debug)]
pub enum Command {
    /// Scatter hit particles around `position`.
    SpawnParticles { position: Vec2, intensity: i64, color: Color },
    /// Create an enemy from `info` at `position` with initial `velocity`.
    SpawnEntity { position: Vec2, velocity: Vec2, info: EnemyInfo },
    /// Open a timed healing zone.
    SpawnAreaEffect { position: Vec2, radius: i64, heal: i64, duration: i64 },
}

/// Well-formedness of a queued command within arena `b`.
pub open spec fn command_wf(c: Command, b: Bounds) -> bool {
    match c {
        Command::SpawnParticles { position, intensity, color } => {
            &&& v2_wf(position)
            &&& fx_wf(intensity)
            &&& color_wf(color)
        },
        Command::SpawnEntity { position, velocity, info } => {
            &&& v2_wf(position)
            &&& v2_wf(velocity)
            &&& enemy_info_wf(info, b)
        },
        Command::SpawnAreaEffect { position, radius, heal, duration } => {
            &&& v2_wf(position)
            &&& 0 < radius <= FX_MAX
            &&& fx_wf(heal)
            &&& 0 < duration <= FX_MAX
        },
    }
}

/// The write buffer of one simulation pass.
#[derive(Debug)]
pub struct Commands {
    pub commands: Vec<Command>,
}

impl Commands {
    /// An empty buffer.
    pub fn new() -> (r: Commands)
        ensures
            r.commands@ =~= Seq::<Command>::empty(),
    {
        Commands { commands: Vec::new() }
    }

    /// Queue a particle burst.
    pub fn spawn_particles(&mut self, position: Vec2, intensity: i64, color: Color)
        ensures
            final(self).commands@ == old(self).commands@.push(
                Command::SpawnParticles { position, intensity, color },
            ),
    {
        self.commands.push(Command::SpawnParticles { position, intensity, color });
    }

    /// Queue an entity spawn.
    pub fn spawn_entity(&mut self, position: Vec2, velocity: Vec2, info: EnemyInfo)
        ensures
            final(self).commands@ == old(self).commands@.push(
                Command::SpawnEntity { position, velocity, info },
            ),
    {
        self.commands.push(Command::SpawnEntity { position, velocity, info });
    }

    /// Queue an area effect.
    pub fn spawn_area_effect(&mut self, position: Vec2, radius: i64, heal: i64, duration: i64)
        ensures
            final(self).commands@ == old(self).commands@.push(
                Command::SpawnAreaEffect { position, radius, heal, duration },
            ),
    {
        self.commands.push(Command::SpawnAreaEffect { position, radius, heal, duration });
    }
}

} // verus!
