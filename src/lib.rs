//! Game logic of a small side-scrolling platformer: procedural terrain, the
//! entity arena with its facets, contact routing, player and monster control,
//! the living-being lifecycle and the application state machine.
//!
//! Lengths, positions and velocities are fixed-point integers: one world unit
//! is `components::UNIT` steps.

pub mod components;
pub mod terrain;
mod random;
pub mod floor;
pub mod world;
pub mod state;
pub mod events;
pub mod contacts;
pub mod living_beings;
pub mod factory;
pub mod player;
pub mod monster_ai;
pub mod level;

pub mod game;
