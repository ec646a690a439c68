//! Movement control for sprites on a grid of pixels.
//!
//! Directional key events are resolved into one velocity per controllable
//! entity, and each simulation tick moves positions and advances walking
//! animations. Every function here is verified against its contract.

pub mod geometry;
pub mod components;
pub mod frames;
pub mod input;
pub mod physics;
pub mod animator;
pub mod store;
