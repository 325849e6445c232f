//! Simulation core of a top-down arena survival game.
//!
//! A player-controlled body and head pair fights waves of enemies inside a
//! bounded arena. The crate covers the fixed-timestep simulation: rigid-body
//! physics and collision resolution, the entity and health state machines,
//! combat, wave and spawner scheduling, particles, and the deferred command
//! and event queues that decouple mutation from iteration.
//!
//! All quantities are saturating fixed-point integers: a value of
//! [`fx::SCALE`] stands for one world unit. See [`fx`] for the arithmetic.
pub mod area;
pub mod entity;
pub mod events;
pub mod fx;
pub mod health;
pub mod model;
pub mod particle;
pub mod physics;
pub mod player;
pub mod rng;
pub mod spawner;
pub mod update;
pub mod vec2;
