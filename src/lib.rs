//! Simulation core of a grid-based bomb arena: the tile grid, player
//! movement, bomb placement, blast propagation and player elimination.

pub mod actions;
pub mod blast;
pub mod bomb;
pub mod config;
pub mod explosion;
pub mod explosion_system;
pub mod geometry;
pub mod grid;
pub mod movement;
pub mod player;
