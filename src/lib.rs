//! A small tile-based action game: tile maps read from character grids,
//! entities that move through them and are pushed out of walls, enemies that
//! wander, and a sword that hurts them.

pub mod components;
pub mod entity;
pub mod moblin;
pub mod player;
pub mod sword;
pub mod util;
pub mod world;
