//! A voxel terrain engine.
//!
//! The world is an endless plane cut into chunks, each a grid of voxels.
//! `terrain` holds the chunk and the generator that fills one from the levels
//! of a height field; `game` keeps the chunks around a viewer loaded as the
//! viewer moves; `renderer` turns a chunk into the triangles of its visible
//! surface.
//!
//! The library works in whole numbers throughout. What is measured in
//! fractions elsewhere (the position of a viewer, the samples of a noise
//! function, the corners of a voxel) comes in and goes out in units that make
//! it whole; each module says which.
pub mod game;
pub mod renderer;
pub mod sequences;
pub mod terrain;
