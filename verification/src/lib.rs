//! A falling-sand material playground: discrete particles ("dots") with
//! procedurally generated material identities fall, collide, exchange heat,
//! change phase and blend into new materials inside a bounded 2D arena.
//!
//! All quantities are fixed-point integers: a value of `fixed::SCALE`
//! (1&nbsp;000&nbsp;000) stands for 1.0.  Times are in microseconds.

pub mod collision;
pub mod color;
pub mod dot;
pub mod engine;
pub mod fixed;
pub mod grid;
pub mod material;
pub mod naming;
pub mod reaction;
pub mod rng;
pub mod seed_gen;
pub mod sim;
pub mod terrain;
pub mod tile_engine;
pub mod world;

pub use fixed::SCALE;
