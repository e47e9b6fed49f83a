use graphics::buffer::BufferSliceId;
use graphics::draw::{PassCommand, RenderState};
use graphics::material::{
    draw_mesh_data_calls, draw_node, prepare_draw_calls, MeshDraw, sub_pass, BatchKey, BlendMode, DrawRanges, MaterialPassNode, SubPass,
};
use graphics::mesh::SubMesh;

fn slice(id: u64) -> BufferSliceId {
    BufferSliceId { id, start: 0, end: 64 }
}

#[test]
fn binding_twice_sends_once() {
    let mut state = RenderState::new();
    assert!(matches!(state.set_pipeline(3), Some(PassCommand::SetPipeline { pipeline: 3 })));
    assert!(state.set_pipeline(3).is_none());
    assert!(matches!(state.set_vertex_buffer(0, slice(1)), Some(PassCommand::SetVertexBuffer { slot: 0, .. })));
    assert!(state.set_vertex_buffer(0, slice(1)).is_none());
    assert!(state.set_vertex_buffer(1, slice(1)).is_some());
    assert!(state.set_index_buffer(slice(2)).is_some());
    assert!(state.set_index_buffer(slice(2)).is_none());
}

#[test]
fn new_pipeline_forgets_bindings() {
    let mut state = RenderState::new();
    state.set_pipeline(1);
    state.set_vertex_buffer(0, slice(5));
    assert!(state.set_pipeline(2).is_some());
    assert!(state.set_vertex_buffer(0, slice(5)).is_some());
}

#[test]
fn bind_group_with_other_offsets_is_not_sent_again() {
    let mut state = RenderState::new();
    assert!(state.set_bind_group(0, 7, &[0]).is_some());
    assert!(state.set_bind_group(0, 7, &[256]).is_none());
    assert!(state.set_bind_group(0, 7, &[0]).is_some());
    assert!(state.set_bind_group(0, 8, &[256]).is_some());
}

fn key(material: u128, mesh: u128) -> BatchKey {
    BatchKey { material, mesh, sub_mesh: None }
}

#[test]
fn batched_draws_gather_equal_keys() {
    let keys = [key(1, 1), key(2, 1), key(1, 1), key(1, 2), key(2, 1)];
    let (ranges, order) = prepare_draw_calls(&keys, true, 10);
    assert!(ranges.unbatched.is_empty());
    assert_eq!(ranges.batches.len(), 3);
    assert_eq!(ranges.batches[0].0, key(1, 1));
    assert_eq!(ranges.batches[0].1, 10..12);
    assert_eq!(ranges.batches[1].0, key(2, 1));
    assert_eq!(ranges.batches[1].1, 12..14);
    assert_eq!(ranges.batches[2].0, key(1, 2));
    assert_eq!(ranges.batches[2].1, 14..15);
    assert_eq!(order, vec![0, 2, 1, 4, 3]);
}

#[test]
fn unbatched_draws_keep_their_order() {
    let sub = SubMesh::new(0, 3, 0, 0);
    let keys = [BatchKey { material: 1, mesh: 1, sub_mesh: Some(sub) }, key(1, 1)];
    let (ranges, order) = prepare_draw_calls(&keys, false, 5);
    assert!(ranges.batches.is_empty());
    assert_eq!(ranges.unbatched.len(), 2);
    assert_eq!(ranges.unbatched[0].1, 5);
    assert_eq!(ranges.unbatched[1], (key(1, 1), 6));
    assert_eq!(order, vec![0, 1]);
}

#[test]
fn draw_nodes_go_to_the_list_of_their_blend_mode() {
    assert_eq!(sub_pass(BlendMode::Opaque), SubPass::Opaque);
    assert_eq!(sub_pass(BlendMode::Transparent), SubPass::Transparent);
    let mut pass: MaterialPassNode<&str> = MaterialPassNode::new();
    pass.add_node(BlendMode::Transparent, "glass");
    pass.add_node(BlendMode::Opaque, "wall");
    pass.add_node(BlendMode::Opaque, "floor");
    assert_eq!(pass.opaque_pass(), &["wall", "floor"]);
    assert_eq!(pass.transparent_pass(), &["glass"]);
}

#[test]
fn draw_node_without_calls_sends_nothing() {
    let mut state = RenderState::new();
    let cmds = draw_node(&mut state, 7, slice(2), 9, 256, None, &[], &[]);
    assert!(cmds.is_empty());
    assert!(matches!(state.set_pipeline(7), Some(PassCommand::SetPipeline { pipeline: 7 })));
}

#[test]
fn draw_node_with_calls_sets_pipeline_instances_and_view_first() {
    let mut state = RenderState::new();
    let ranges = DrawRanges { batches: vec![], unbatched: vec![] };
    let cmds = draw_node(&mut state, 7, slice(2), 9, 256, Some(&ranges), &[], &[]);
    assert_eq!(cmds.len(), 3);
    assert!(matches!(cmds[0], PassCommand::SetPipeline { pipeline: 7 }));
    assert!(matches!(cmds[1], PassCommand::SetVertexBuffer { slot: 1, .. }));
    assert!(matches!(cmds[2], PassCommand::SetBindGroup { group: 0, .. }));
}

#[test]
fn mesh_data_calls_bind_the_buffer_then_draw_each_mesh() {
    let mut state = RenderState::new();
    assert!(draw_mesh_data_calls(&mut state, None, 2, &[(1, None, 0, 3)], &[], &[]).is_empty());
    let meshes = vec![(
        1u128,
        MeshDraw { vertex_buffer: slice(5), index_buffer: Some(slice(6)), vertex_count: 8, index_count: 12 },
    )];
    let sub = SubMesh::new(2, 4, 3, 6);
    let cmds = draw_mesh_data_calls(
        &mut state,
        Some(slice(9)),
        2,
        &[(1, None, 0, 3)],
        &[(1, Some(sub), 7), (2, None, 8)],
        &meshes,
    );
    assert!(matches!(cmds[0], PassCommand::SetVertexBuffer { slot: 2, .. }));
    assert!(matches!(cmds[1], PassCommand::SetVertexBuffer { slot: 0, slice: BufferSliceId { id: 5, start: 0, end: 8 } }));
    assert!(matches!(cmds[2], PassCommand::SetIndexBuffer { .. }));
    match &cmds[3] {
        PassCommand::DrawIndexed { indices, base_vertex, instances } => {
            assert_eq!((indices.clone(), *base_vertex, instances.clone()), (0..12, 0, 0..3));
        },
        _ => panic!("expected an indexed draw"),
    }
    assert!(matches!(cmds[4], PassCommand::SetVertexBuffer { slot: 0, slice: BufferSliceId { id: 5, start: 2, end: 6 } }));
    assert!(matches!(cmds[5], PassCommand::SetIndexBuffer { .. }));
    match &cmds[6] {
        PassCommand::DrawIndexed { indices, instances, .. } => {
            assert_eq!((indices.clone(), instances.clone()), (0..6, 7..8));
        },
        _ => panic!("expected an indexed draw"),
    }
    assert_eq!(cmds.len(), 7);
}
