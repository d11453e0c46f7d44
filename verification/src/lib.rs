//! Simulation core of a top-down tactical roguelike.
//!
//! An entity-component world resolves discrete player/NPC turns and, between
//! those turns, drives continuous sub-turn motion (projectiles, knockback,
//! explosion particles, light fades) on a simulated real-time clock.
//! Rendering, input handling and persistence are collaborators outside this
//! crate; the library owns the entity store, the spatial index, the action
//! pipeline, the realtime scheduler and the level-layout post-processing.

pub mod action;
pub mod data;
pub mod entity;
pub mod event;
pub mod geom;
pub mod grid;
pub mod laws;
pub mod line;
pub mod particle;
pub mod realtime;
pub mod rng;
pub mod sched;
pub mod spawner;
pub mod spatial;
pub mod state;
pub mod stats;
pub mod table;
pub mod terrain;
pub mod tile;
pub mod weapon;
pub mod world;
