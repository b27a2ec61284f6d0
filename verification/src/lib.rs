//! A small entity-component runtime: a world of entities with typed
//! component slots, signature-based queries, schedules of systems with
//! explicit ordering constraints and component-access conflict detection,
//! and a fixed-step simulation clock decoupled from the frame rate.

pub mod clock;
pub mod effects;
pub mod entity;
pub mod fog;
pub mod frame;
pub mod motion;
pub mod query;
pub mod schedule;
pub mod screens;
pub mod world;
