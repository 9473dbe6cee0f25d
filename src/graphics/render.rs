//! The GPU work of one frame, as an ordered list of commands.
//!
//! A frame clears the render target, draws each queued batch with one
//! instanced call, and presents the result. Planning is kept apart from the
//! GPU so that the order of work can be stated and checked.
use vstd::prelude::*;

use crate::graphics::batches::{BatchList, BatchView};
use crate::graphics::mesh::Mesh;
use crate::graphics::shaders::ProgramID;
use crate::graphics::textures::TextureID;
use crate::graphics::DrawingError;

verus! {

/// One step of a frame's GPU work.
#[derive(Copy, Clone, Debug, PartialEq, Eq, Structural)]
pub enum GpuCommand {
    /// Clear the colour and depth buffers.
    Clear,
    /// Use a shader program.
    UseProgram(ProgramID),
    /// Bind a texture.
    BindTexture(TextureID),
    /// Bind a mesh's vertex array and element buffer.
    BindMesh { vao: u32, ebo: u32 },
    /// Stream the instance records of the batch at position `batch` of the
    /// list into the per-instance buffer `vbo`.
    UploadInstances { vbo: u32, batch: usize },
    /// Draw the bound mesh `instance_count` times.
    DrawInstanced { index_count: u32, instance_count: usize },
    /// Present the frame.
    Swap,
}

/// The commands of a frame, and how it ended.
#[derive(Debug)]
pub struct FramePlan {
    /// Commands to run, in order.
    pub commands: Vec<GpuCommand>,
    /// `Ok` when every batch was drawn and the frame presented; otherwise
    /// the error of the first batch that could not be drawn, after the
    /// batches before it.
    pub result: Result<(), DrawingError>,
}

/// The commands that draw batch `b`, found at position `i` of the list.
pub open spec fn batch_commands(b: BatchView, i: int) -> Seq<GpuCommand> {
    seq![
        GpuCommand::UseProgram(b.program@),
        GpuCommand::BindTexture(b.texture),
        GpuCommand::BindMesh { vao: b.mesh.vao, ebo: b.mesh.ebo },
        GpuCommand::UploadInstances { vbo: b.mesh.batch_vbo, batch: i as usize },
        GpuCommand::DrawInstanced {
            index_count: b.mesh.indices_count,
            instance_count: b.count as usize,
        },
    ]
}

/// The commands that draw the first `n` batches, in order.
pub open spec fn draws(bs: Seq<BatchView>, n: int) -> Seq<GpuCommand>
    decreases n,
{
    if n <= 0 {
        Seq::empty()
    } else {
        draws(bs, n - 1) + batch_commands(bs[n - 1], n - 1)
    }
}

/// Index of the first batch whose mesh is not ready, or the number of
/// batches when all are.
pub open spec fn first_unready(bs: Seq<BatchView>) -> nat
    decreases bs.len(),
{
    if bs.len() == 0 {
        0
    } else if !bs[0].mesh.ready() {
        0
    } else {
        1 + first_unready(bs.drop_first())
    }
}

/// The error that drawing a mesh that is not ready raises.
pub open spec fn unready_error(m: Mesh) -> DrawingError {
    if m.vao == 0 {
        DrawingError::MeshVAONotInitialized
    } else {
        DrawingError::MeshEBONotInitialized
    }
}

/// The commands of a frame over the batches `bs`.
pub open spec fn frame_commands(bs: Seq<BatchView>) -> Seq<GpuCommand> {
    let k = first_unready(bs) as int;
    if k == bs.len() {
        seq![GpuCommand::Clear] + draws(bs, k) + seq![GpuCommand::Swap]
    } else {
        seq![GpuCommand::Clear] + draws(bs, k)
    }
}

/// `first_unready` is the first batch whose mesh is not ready.
proof fn lemma_first_unready_is(bs: Seq<BatchView>, k: int)
    requires
        0 <= k <= bs.len(),
        forall|j: int| 0 <= j < k ==> (#[trigger] bs[j]).mesh.ready(),
        k < bs.len() ==> !bs[k].mesh.ready(),
    ensures
        first_unready(bs) == k,
    decreases bs.len(),
{
    if bs.len() > 0 && k > 0 {
        assert forall|j: int| 0 <= j < k - 1 implies (#[trigger] bs.drop_first()[j]).mesh.ready() by {
            assert(bs.drop_first()[j] == bs[j + 1]);
        }
        lemma_first_unready_is(bs.drop_first(), k - 1);
    }
}

/// Plans the GPU work of a frame: clear, then for each batch in order use
/// its program, bind its texture and mesh, upload its instance records and
/// draw it instanced; then present. A batch whose mesh is not ready stops
/// the frame with that mesh's error, after the batches before it, and the
/// frame is not presented. With no batch queued the frame is cleared and
/// presented and nothing is drawn.
pub fn render_plan(batches: &BatchList) -> (r: FramePlan)
    ensures
        r.commands@ == frame_commands(batches@),
        r.result is Ok <==> first_unready(batches@) == batches@.len(),
        first_unready(batches@) < batches@.len() ==> r.result == Err::<(), DrawingError>(
            unready_error(batches@[first_unready(batches@) as int].mesh),
        ),
{
    let mut commands: Vec<GpuCommand> = Vec::new();
    commands.push(GpuCommand::Clear);
    let n = batches.len();
    let mut i: usize = 0;
    while i < n
        invariant
            n == batches@.len(),
            0 <= i <= n,
            commands@ == seq![GpuCommand::Clear] + draws(batches@, i as int),
            forall|j: int| 0 <= j < i ==> (#[trigger] batches@[j]).mesh.ready(),
        decreases n - i,
    {
        let batch = batches.get(i);
        let mesh = batch.mesh();
        match mesh.check() {
            Ok(()) => {},
            Err(e) => {
                proof {
                    lemma_first_unready_is(batches@, i as int);
                }
                return FramePlan { commands, result: Err(e) };
            },
        }
        let ghost before = commands@;
        commands.push(GpuCommand::UseProgram(batch.program().id()));
        commands.push(GpuCommand::BindTexture(batch.texture()));
        commands.push(GpuCommand::BindMesh { vao: mesh.vao(), ebo: mesh.ebo() });
        commands.push(GpuCommand::UploadInstances { vbo: mesh.batch_vbo(), batch: i });
        commands.push(
            GpuCommand::DrawInstanced {
                index_count: mesh.indices_count(),
                instance_count: batch.obj_count(),
            },
        );
        proof {
            assert(commands@ =~= before + batch_commands(batches@[i as int], i as int));
            assert(draws(batches@, i + 1) == draws(batches@, i as int) + batch_commands(
                batches@[i as int],
                i as int,
            ));
            assert(commands@ =~= seq![GpuCommand::Clear] + draws(batches@, i + 1));
        }
        i = i + 1;
    }
    proof {
        lemma_first_unready_is(batches@, n as int);
    }
    commands.push(GpuCommand::Swap);
    FramePlan { commands, result: Ok(()) }
}

} // verus!
