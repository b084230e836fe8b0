//! The tile field of a small grid game: where tiles lie in the world, which
//! tile a pointer falls into, and the stack of sprites drawn on each tile.

pub mod binary32;
pub mod camera;
pub mod config;
pub mod coord;
pub mod error;
pub mod grid;
pub mod lattice;
pub mod laws;
pub mod picker;
pub mod session;
pub mod stack;
pub mod tile;
