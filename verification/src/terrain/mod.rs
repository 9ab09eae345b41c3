//! Terrain data: the chunk grid and the generator that fills it.
pub mod chunk;
pub mod generator;
