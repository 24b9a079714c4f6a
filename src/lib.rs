//! Simulation core of a tile-grid bomb game: grid geometry, timers, the
//! entity store, bomb propagation, movement and the game-state machine.

pub mod grid;
pub mod timer;
pub mod components;
pub mod resource;
pub mod game;
pub mod bomb;
pub mod movement;
pub mod map;
pub mod state;
pub mod sprites;
