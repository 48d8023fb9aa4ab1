//! Simulation engine for a race of independently paced runners.
//!
//! All physical quantities are fixed-point integers:
//! distances in micrometres, wall-clock and in-race clocks in microseconds,
//! pacing checkpoints in milliseconds, speeds in micrometres per real second,
//! and fractional quantities (lane offset, animation phase, stride) in millionths.
//! The time scale is given in thousandths of in-race seconds per real second.

pub mod random;
pub mod runner;
pub mod race;
pub mod simulation;
