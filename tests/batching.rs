use sprite_batch::graphics::batches::{Batch, BatchList, DrawCall, BATCH_INSTANCE_SIZE, MAX_BATCH_SIZE};
use sprite_batch::graphics::mesh::Mesh;
use sprite_batch::graphics::render::{render_plan, GpuCommand};
use sprite_batch::graphics::shaders::Program;
use sprite_batch::graphics::DrawingError;

fn quad() -> Mesh {
    Mesh { vao: 1, vbo: 2, ebo: 3, batch_vbo: 4, indices_count: 6 }
}

fn call(program: u32, mesh: Mesh, texture: u32, seed: u32) -> DrawCall {
    let mut matrix = [[0u32; 4]; 4];
    for c in 0..4 {
        for r in 0..4 {
            matrix[c][r] = seed * 100 + (c as u32) * 4 + r as u32;
        }
    }
    DrawCall {
        program: Program::from_id(program),
        mesh,
        texture,
        tex_position: [seed, seed + 1, seed + 2, seed + 3],
        matrix,
    }
}

#[test]
fn same_key_calls_fill_batches_in_order() {
    let mut list = BatchList::new();
    for i in 0..600u32 {
        list.insert(&call(7, quad(), 9, i));
    }
    assert_eq!(list.len(), 3);
    let counts: Vec<usize> = list.batches().iter().map(|b| b.obj_count()).collect();
    assert_eq!(counts, vec![256, 256, 88]);
    assert_eq!(counts.iter().sum::<usize>(), 600);
}

#[test]
fn same_key_batch_count_at_capacity_edges() {
    for (n, expected) in [(0usize, 0usize), (1, 1), (256, 1), (257, 2), (512, 2), (513, 3)] {
        let mut list = BatchList::new();
        for i in 0..n {
            list.insert(&call(1, quad(), 2, i as u32));
        }
        assert_eq!(list.len(), expected);
        assert_eq!((n + MAX_BATCH_SIZE - 1) / MAX_BATCH_SIZE, expected);
        let total: usize = list.batches().iter().map(|b| b.obj_count()).sum();
        assert_eq!(total, n);
        assert!(list.batches().iter().all(|b| b.obj_count() <= MAX_BATCH_SIZE));
    }
}

#[test]
fn distinct_textures_never_share_a_batch() {
    let mut list = BatchList::new();
    for i in 0..40u32 {
        list.insert(&call(1, quad(), i % 5, i));
    }
    assert_eq!(list.len(), 5);
    for (i, b) in list.batches().iter().enumerate() {
        assert_eq!(b.texture(), i as u32);
        assert_eq!(b.obj_count(), 8);
    }
}

#[test]
fn alternating_textures_three_hundred_calls() {
    let mut list = BatchList::new();
    for i in 0..300u32 {
        let texture = if i % 2 == 0 { 10 } else { 20 };
        list.insert(&call(1, quad(), texture, i));
    }
    // First-fit scans every batch, so each texture keeps one batch until it
    // holds MAX_BATCH_SIZE objects; 150 per texture fit in one.
    assert_eq!(list.len(), 2);
    let a: usize = list.batches().iter().filter(|b| b.texture() == 10).map(|b| b.obj_count()).sum();
    let b: usize = list.batches().iter().filter(|b| b.texture() == 20).map(|b| b.obj_count()).sum();
    assert_eq!(a, 150);
    assert_eq!(b, 150);
}

#[test]
fn add_to_full_batch_is_refused() {
    let dc = call(1, quad(), 2, 0);
    let mut batch = Batch::new(&dc);
    for i in 1..MAX_BATCH_SIZE {
        assert!(batch.add(&call(1, quad(), 2, i as u32)));
    }
    assert_eq!(batch.obj_count(), MAX_BATCH_SIZE);
    let before = batch.buffer_data().to_vec();
    assert!(!batch.add(&dc));
    assert_eq!(batch.obj_count(), MAX_BATCH_SIZE);
    assert_eq!(batch.buffer_data(), &before[..]);
}

#[test]
fn add_with_other_key_is_refused() {
    let dc = call(1, quad(), 2, 0);
    let mut batch = Batch::new(&dc);
    let before = batch.buffer_data().to_vec();
    let other_mesh = Mesh { vao: 11, vbo: 12, ebo: 13, batch_vbo: 14, indices_count: 6 };
    for other in [call(5, quad(), 2, 1), call(1, other_mesh, 2, 1), call(1, quad(), 3, 1)] {
        assert!(!batch.add(&other));
        assert!(!batch.add(&other));
        assert_eq!(batch.obj_count(), 1);
        assert_eq!(batch.buffer_data(), &before[..]);
    }
    assert_eq!(batch.program(), Program::from_id(1));
    assert_eq!(batch.mesh(), quad());
    assert_eq!(batch.texture(), 2);
}

#[test]
fn new_batch_reads_back_its_first_record() {
    let dc = call(3, quad(), 4, 7);
    let batch = Batch::new(&dc);
    let data = batch.buffer_data();
    assert_eq!(data.len(), BATCH_INSTANCE_SIZE);
    assert_eq!(&data[0..4], &dc.tex_position[..]);
    for i in 0..16 {
        assert_eq!(data[4 + i], dc.matrix[i / 4][i % 4]);
    }
}

#[test]
fn records_are_appended_in_order() {
    let mut batch = Batch::new(&call(1, quad(), 2, 1));
    assert!(batch.add(&call(1, quad(), 2, 2)));
    let data = batch.buffer_data();
    assert_eq!(data.len(), 2 * BATCH_INSTANCE_SIZE);
    assert_eq!(&data[20..24], &[2, 3, 4, 5]);
    assert_eq!(data[24], 200);
    assert_eq!(data[39], 215);
}

#[test]
fn float_bits_round_trip_exactly() {
    let region = [0.25f32, 0.5, 0.125, -0.0];
    let mut dc = call(1, quad(), 2, 0);
    for i in 0..4 {
        dc.tex_position[i] = region[i].to_bits();
    }
    let batch = Batch::new(&dc);
    for i in 0..4 {
        assert_eq!(f32::from_bits(batch.buffer_data()[i]).to_bits(), region[i].to_bits());
    }
}

#[test]
fn empty_frame_clears_and_presents() {
    let list = BatchList::new();
    let plan = render_plan(&list);
    assert_eq!(plan.commands, vec![GpuCommand::Clear, GpuCommand::Swap]);
    assert!(plan.result.is_ok());
    assert!(!plan.commands.iter().any(|c| matches!(c, GpuCommand::DrawInstanced { .. })));
}

#[test]
fn frame_draws_each_batch_once() {
    let mut list = BatchList::new();
    list.insert(&call(1, quad(), 2, 0));
    list.insert(&call(1, quad(), 3, 0));
    list.insert(&call(1, quad(), 2, 1));
    let plan = render_plan(&list);
    assert!(plan.result.is_ok());
    assert_eq!(
        plan.commands,
        vec![
            GpuCommand::Clear,
            GpuCommand::UseProgram(1),
            GpuCommand::BindTexture(2),
            GpuCommand::BindMesh { vao: 1, ebo: 3 },
            GpuCommand::UploadInstances { vbo: 4, batch: 0 },
            GpuCommand::DrawInstanced { index_count: 6, instance_count: 2 },
            GpuCommand::UseProgram(1),
            GpuCommand::BindTexture(3),
            GpuCommand::BindMesh { vao: 1, ebo: 3 },
            GpuCommand::UploadInstances { vbo: 4, batch: 1 },
            GpuCommand::DrawInstanced { index_count: 6, instance_count: 1 },
            GpuCommand::Swap,
        ]
    );
}

#[test]
fn frame_stops_at_unready_mesh() {
    let broken = Mesh { vao: 5, vbo: 6, ebo: 0, batch_vbo: 7, indices_count: 6 };
    let mut list = BatchList::new();
    list.insert(&call(1, quad(), 2, 0));
    list.insert(&call(1, broken, 2, 0));
    list.insert(&call(1, quad(), 8, 0));
    let plan = render_plan(&list);
    assert!(matches!(plan.result, Err(DrawingError::MeshEBONotInitialized)));
    assert_eq!(plan.commands.len(), 6);
    assert_eq!(plan.commands[0], GpuCommand::Clear);
    assert!(!plan.commands.contains(&GpuCommand::Swap));
}

#[test]
fn clear_empties_the_list() {
    let mut list = BatchList::new();
    list.insert(&call(1, quad(), 2, 0));
    assert_eq!(list.len(), 1);
    list.clear();
    assert_eq!(list.len(), 0);
}
