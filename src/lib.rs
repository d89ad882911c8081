//! Simulation core of an endless vertical bounce game.
//!
//! A ball is launched by impulses away from the pointer, falls under
//! gravity, bounces off the side walls and must avoid obstacles generated
//! ahead of it as it climbs. The core holds the world state and advances it
//! one tick at a time ([`world::World::tick`]); it reads plain input values
//! and hands back draw and sound requests ([`render`]) for a renderer and an
//! audio player to carry out.
//!
//! All quantities are integers: lengths in sub-pixels, times in
//! milliseconds (see [`units`]).
pub mod units;
pub mod random;
pub mod physics;
pub mod score;
pub mod life;
pub mod obstacles;
pub mod collision;
pub mod tiles;
pub mod world;
pub mod render;
