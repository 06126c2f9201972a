//! A tick-driven tactical simulation of an urban standoff: units seek and
//! fight their enemies, reinforcement waves grow over time, and a mission
//! moves through ordered phases toward victory or defeat under a feedback
//! loop of political pressure.
//!
//! Every quantity is an integer: positions in thousandths of a world unit,
//! time in milliseconds, fractions in millionths. Each step of a tick is
//! specified exactly in `requires`/`ensures` and proved by Verus.

pub mod geometry;
pub mod units;
pub mod registry;
pub mod events;
pub mod mission;
pub mod combat;
pub mod movement;
pub mod ai;
pub mod waves;
pub mod pressure;
pub mod sim;
pub mod input;
