//! The state of the world around the viewer.
pub mod camera_controller;
pub mod state;
pub mod streaming;
