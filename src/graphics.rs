//! Rendering: batching, frame planning and the GPU-side descriptors.
use vstd::prelude::*;

use crate::graphics::shaders::ShaderError;

pub mod batches;
pub mod camera;
pub mod mesh;
pub mod render;
pub mod shaders;
pub mod sprites;
pub mod text;
pub mod textures;

verus! {

/// What the window is created with.
#[derive(Debug, Copy, Clone)]
pub struct WindowSettings<'a> {
    pub title: &'a str,
    pub width: u32,
    pub height: u32,
    pub vsync: bool,
}

/// Error raised while setting up the window or the GPU context.
#[derive(Debug)]
pub enum GraphicsError {
    /// Error reported by the windowing layer.
    SdlError(String),
    /// Error reported by the GPU context.
    GlError(String),
}

/// Error raised while drawing.
#[derive(Debug)]
pub enum DrawingError {
    /// Error reported by the windowing layer.
    SdlError(String),
    /// Error reported by the GPU context.
    GlError(String),
    /// A shader failed to compile or a program failed to link.
    ShaderError(ShaderError),
    /// Tried drawing a mesh that had no element buffer.
    MeshEBONotInitialized,
    /// Tried drawing a mesh that had no vertex array.
    MeshVAONotInitialized,
    /// The window could not be built; holds the windowing layer's message.
    WindowBuildError(String),
}

impl From<ShaderError> for DrawingError {
    fn from(error: ShaderError) -> (r: DrawingError)
        ensures
            r == DrawingError::ShaderError(error),
    {
        DrawingError::ShaderError(error)
    }
}

impl vstd::std_specs::convert::FromSpecImpl<ShaderError> for DrawingError {
    open spec fn obeys_from_spec() -> bool {
        true
    }

    open spec fn from_spec(error: ShaderError) -> DrawingError {
        DrawingError::ShaderError(error)
    }
}

} // verus!
