//! A small terminal particle engine: short-lived steam particles rise through a
//! character grid and each simulation step is rendered as a text frame.
//!
//! Positions and velocities are fixed-point integers, `UNITS_PER_CELL` units to
//! one grid cell, so that every step of the simulation and of the
//! rasterization is exact and verified.
pub mod coffee;
pub mod frame;
mod random;
pub mod renderer;
pub mod simulation;
pub mod steam_renderer;
pub mod vector2;
