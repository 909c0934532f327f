//! A two-team territory game on a grid: balls bounce inside a canvas and
//! repaint the cells they touch in their own side's colour.
//!
//! Positions and velocities are fixed-point numbers in millionths of a
//! canvas pixel, so every rule of the simulation is exact integer arithmetic.

pub mod ball;
pub mod grid;
pub mod game;
pub mod laws;
mod noise;
pub mod text;
