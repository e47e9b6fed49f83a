use graphics::asset::ReadWrite;
use graphics::device::{DeviceCommand, Limits, RenderDevice};
use graphics::index::Indices;
use graphics::mesh::{MeshAttributeKind, MeshTopology, SubMesh};
use graphics::mesh_asset::{Mesh, MeshAttribute, MESH_DIRTY_ALL, MESH_DIRTY_INDICES};

fn device() -> RenderDevice {
    RenderDevice::new(Limits {
        min_uniform_buffer_offset_alignment: 256,
        min_storage_buffer_offset_alignment: 256,
        max_uniform_buffer_binding_size: 65536,
        max_storage_buffers_per_shader_stage: 8,
    })
}

fn positions(count: u8) -> MeshAttribute {
    MeshAttribute::new(MeshAttributeKind::Position, (0..count * 12).collect())
}

fn uvs(count: u8) -> MeshAttribute {
    MeshAttribute::new(MeshAttributeKind::TexCoord0, (0..count * 8).map(|b| 200 + b).collect())
}

#[test]
fn vertex_count_is_the_shortest_attribute() {
    let mesh = Mesh::new(MeshTopology::TriangleList);
    assert_eq!(mesh.vertex_count(), 0);
    let mesh = mesh.with_attribute(positions(3)).with_attribute(uvs(2));
    assert_eq!(mesh.vertex_count(), 2);
    assert_eq!(mesh.attribute_index(MeshAttributeKind::TexCoord0), Some(1));
    assert_eq!(mesh.attribute(MeshAttributeKind::Normal).is_none(), true);
    assert_eq!(mesh.layout().as_slice(), &[MeshAttributeKind::Position, MeshAttributeKind::TexCoord0]);
}

#[test]
fn vertex_data_interleaves_attributes() {
    let mesh = Mesh::new(MeshTopology::TriangleList).with_attribute(positions(2)).with_attribute(uvs(2));
    let (data, count) = mesh.vertex_data();
    assert_eq!(count, 2);
    assert_eq!(data.len(), 40);
    let expected: Vec<u8> = (0..12).chain(200..208).chain(12..24).chain(208..216).collect();
    assert_eq!(data, expected);
    assert_eq!(mesh.attribute_data(MeshAttributeKind::TexCoord0, 1, 2), &(208..216).collect::<Vec<u8>>()[..]);
    assert!(mesh.attribute_data(MeshAttributeKind::Color, 0, 5).is_empty());
}

#[test]
fn adding_an_attribute_again_replaces_it() {
    let mut mesh = Mesh::new(MeshTopology::LineList);
    mesh.add_attribute(positions(1));
    assert_eq!(mesh.dirty(), 258);
    assert!(mesh.is_attribute_dirty(MeshAttributeKind::Position));
    assert!(!mesh.is_attribute_dirty(MeshAttributeKind::Color));
    mesh.add_attribute(positions(4));
    assert_eq!(mesh.attributes().len(), 1);
    assert_eq!(mesh.vertex_count(), 4);
    let removed = mesh.remove_attribute(MeshAttributeKind::Position).unwrap();
    assert_eq!(removed.len(), 4);
    assert!(mesh.remove_attribute(MeshAttributeKind::Position).is_none());
    assert_eq!(mesh.attributes().len(), 0);
}

#[test]
fn indices_and_parts() {
    let mut mesh = Mesh::new(MeshTopology::TriangleList);
    mesh.add_indices(Indices::new(vec![0, 1, 2]));
    assert_eq!(mesh.dirty(), 0);
    mesh.add_indices(Indices::new(vec![2, 3, 0]));
    assert_eq!(mesh.index_count(), 6);
    mesh.set_indices(Indices::new(vec![5]));
    assert_eq!(mesh.index_count(), 1);
    assert_eq!(mesh.dirty() & MESH_DIRTY_INDICES, MESH_DIRTY_INDICES);
    mesh.add_sub_mesh(SubMesh::new(0, 3, 0, 3));
    assert_eq!(mesh.sub_mesh(0), Some(&SubMesh::new(0, 3, 0, 3)));
    assert!(mesh.sub_mesh(1).is_none());
    assert_eq!(mesh.remove_sub_mesh(0), SubMesh::new(0, 3, 0, 3));
    mesh.add_attribute(positions(2));
    mesh.clear();
    assert_eq!(mesh.dirty(), MESH_DIRTY_ALL);
    assert!(mesh.indices().is_none());
    assert_eq!(mesh.vertex_count(), 0);
    assert_eq!(mesh.attributes().len(), 1);
}

#[test]
fn render_mesh_of_a_write_once_mesh_drops_the_data() {
    let mut device = device();
    let mut mesh = Mesh::new(MeshTopology::TriangleList).with_attribute(positions(3));
    mesh.set_indices(Indices::new(vec![0, 1, 2]));
    let render = mesh.create_render_mesh(&mut device);
    assert_eq!(render.vertex_count(), 3);
    assert_eq!(render.index_count(), 3);
    assert_eq!(render.layout().as_slice(), &[MeshAttributeKind::Position]);
    assert_eq!(render.vertex_buffer().len(), 3);
    assert_eq!(mesh.vertex_count(), 0);
    assert_eq!(mesh.index_count(), 0);
    match &device.commands()[0] {
        DeviceCommand::CreateBuffer { contents: Some(bytes), usage, .. } => {
            assert_eq!(bytes.len(), 36);
            assert_eq!(usage.bits, 16);
        },
        _ => panic!("expected the vertex buffer"),
    }
}

#[test]
fn readable_mesh_keeps_data_and_updates_indices() {
    let mut device = device();
    let mut mesh = Mesh::new(MeshTopology::TriangleList)
        .with_attribute(positions(3))
        .with_read_write(ReadWrite::Enabled);
    mesh.set_indices(Indices::new(vec![0, 1, 2]));
    let mut render = mesh.create_render_mesh(&mut device);
    assert_eq!(mesh.vertex_count(), 3);
    assert_eq!(render.vertex_buffer().buffer().unwrap().usage().bits, 10 | 16);
    mesh.update(&mut device, &mut render);
    assert_eq!(mesh.dirty() & MESH_DIRTY_INDICES, 0);
    assert!(matches!(device.commands().last().unwrap(), DeviceCommand::WriteBuffer { offset: 0, .. }));
}
