//! Simulation core of a turn-based, grid-dungeon roguelike: procedural level
//! generation, tile-based visibility and exploration tracking, and a
//! deterministic turn-resolution loop for player and monster actions.
//!
//! Rendering, font handling and input decoding are left to the surrounding
//! program; this crate only computes what should be drawn and which events
//! should be logged.

pub mod config;
pub mod fov;
pub mod geometry;
pub mod mapgen;
pub mod objects;
pub mod render;
pub mod rng;
pub mod store;
pub mod tiles;
pub mod turn;
