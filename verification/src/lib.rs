//! A flock of boids on a fixed-point grid, and the rules of a small board
//! game, both verified with Verus.
//!
//! The flock lives in a square world. In every tick three behaviours look at
//! the neighbours of each agent (cohesion, separation, alignment), and an
//! integrator turns what they found into the agent's next velocity and
//! position. Six parameters, the range and the strength of each behaviour,
//! can be tuned between ticks. All numbers are whole millionths, so every
//! contract is exact.
//!
//! The board game is independent of the flock: a board of three by three
//! squares and the rule that says what a step of a piece leads to.

pub mod agent;
pub mod behavior;
pub mod flock;
pub mod integrator;
pub mod laws;
pub mod model;
pub mod parameter;
pub mod scalar;
pub mod spawn;
pub mod vector;
