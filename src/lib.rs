//! Core of a two-dimension grid puzzle: the map document, the dual grid of
//! cells, the collision and door-key rules, the tutorial sequencer and the
//! game-level state machine.

pub mod dimension;
pub mod map_data;
pub mod grid;
pub mod physics;
pub mod state;
pub mod engine;
pub mod tutorial;
pub mod map_manager;
