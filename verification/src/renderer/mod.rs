//! What the renderer is handed: vertices, chunk meshes and the frame-rate
//! figure.
pub mod fps_display;
pub mod mesh_generator;
pub mod surface;
pub mod vertex;
