//! Core of a turn-based dungeon crawler: an entity/component store, a spatial
//! map with derived indexes, a fixed-order turn pipeline that consumes intent
//! components (pickup, use, drop, melee), targeting and item-effect
//! resolution, a death sweep, and the run-state machine that drives it all.
//!
//! Rendering, keyboard handling and dungeon generation are outside
//! collaborators: they hand the core plain values (intents, menu choices,
//! pathfinding steps) and read the resulting component state and game log.

pub mod components;
pub mod game_map;
pub mod gamelog;
pub mod damage_system;
pub mod inventory_system;
pub mod monster_ai_system;
pub mod player;
pub mod rng;
pub mod spawner;
pub mod state;
pub mod world;
