//! A reversible simulation of agents that cover an orthogonal grid map.
//!
//! Agents move over a grid, cover the free cells that their sensors reach and collect
//! pickups that give them more sensors, speed or companions. Every step returns a
//! record with which it can be taken back, so that a search can try a step, look at
//! the result and return to where it was.
//!
//! - `geometry`, `grid` and `robot` hold the points, the grid with its counters and
//!   the agents with what they see.
//! - `raster` fills the cells inside an orthogonal polygon; `text` and `problem` read
//!   a task from its text.
//! - `state` holds the simulation and its steps; `interface` holds the traits through
//!   which a search uses it.
//! - `model` says in mathematical terms what a step and a step back make of a state;
//!   `sweep` and `laws` prove what holds of them: steps can be taken back, covered
//!   cells stay covered, pickups are conserved.
//! - `terminal` colours text.

pub mod geometry;
pub mod grid;
pub mod interface;
pub mod laws;
pub mod model;
pub mod problem;
pub mod raster;
pub mod robot;
pub mod state;
pub mod sweep;
pub mod terminal;
pub mod text;
