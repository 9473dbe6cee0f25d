//! Instanced sprite batching: draw requests are grouped into fixed-capacity
//! batches by (program, mesh, texture), and each frame is turned into an
//! ordered list of GPU commands.
pub mod assets;
pub mod graphics;
pub mod input;
