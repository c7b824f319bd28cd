//! Orbita: the model side of a small 2D space game engine.
//!
//! The library holds what the game decides on plain values: the chemical
//! elements and their categories, the engine's configuration, its resource
//! registry and event bus, and the nested chunk maps of the galaxy.
//! Drawing, windowing and floating-point physics live in the application.

pub mod base;
pub mod collections;
pub mod game;

pub mod engine;
pub mod schedule;
