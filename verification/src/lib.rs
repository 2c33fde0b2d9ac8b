//! Core of a two-agent pursuit simulation on a circular arena.
//!
//! A runner tries to reach the boundary of a circular arena before a faster
//! chaser, constrained to that boundary, intercepts it. All geometry is kept
//! in integer sub-pixel units so that every rule of the simulation is stated
//! and proved exactly; a rendering shell converts to screen coordinates.

pub mod angle;
pub mod arena;
pub mod chaser;
pub mod input;
pub mod layout;
pub mod num;
pub mod outcome;
pub mod runner;
pub mod trig;
pub mod vector;
pub mod world;
