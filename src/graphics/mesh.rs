//! Mesh descriptors: the GPU objects that hold a mesh's geometry.
use vstd::prelude::*;

use crate::graphics::DrawingError;

verus! {

/// GPU objects of an indexed mesh that can be drawn instanced.
///
/// A handle of 0 means that the object was never created.
#[derive(Copy, Clone, Debug, PartialEq, Eq, Structural)]
pub struct Mesh {
    /// Vertex array object.
    pub vao: u32,
    /// Vertex buffer.
    pub vbo: u32,
    /// Element (index) buffer.
    pub ebo: u32,
    /// Per-instance buffer that batches stream their data into.
    pub batch_vbo: u32,
    /// Number of indices to draw.
    pub indices_count: u32,
}

impl Mesh {
    /// The mesh has the vertex array and element buffer that drawing needs.
    pub open spec fn ready(self) -> bool {
        self.vao != 0 && self.ebo != 0
    }

    /// Checks that the mesh can be drawn: a missing vertex array is
    /// reported first, then a missing element buffer.
    pub fn check(self) -> (r: Result<(), DrawingError>)
        ensures
            r is Ok <==> self.ready(),
            self.vao == 0 ==> r == Err::<(), DrawingError>(DrawingError::MeshVAONotInitialized),
            self.vao != 0 && self.ebo == 0 ==> r == Err::<(), DrawingError>(
                DrawingError::MeshEBONotInitialized,
            ),
    {
        if self.vao == 0 {
            Err(DrawingError::MeshVAONotInitialized)
        } else if self.ebo == 0 {
            Err(DrawingError::MeshEBONotInitialized)
        } else {
            Ok(())
        }
    }

    pub fn vao(self) -> (r: u32)
        ensures
            r == self.vao,
    {
        self.vao
    }

    pub fn ebo(self) -> (r: u32)
        ensures
            r == self.ebo,
    {
        self.ebo
    }

    pub fn batch_vbo(self) -> (r: u32)
        ensures
            r == self.batch_vbo,
    {
        self.batch_vbo
    }

    pub fn indices_count(self) -> (r: u32)
        ensures
            r == self.indices_count,
    {
        self.indices_count
    }
}

} // verus!
