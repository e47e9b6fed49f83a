use graphics::device::{Limits, RenderDevice};
use graphics::graph::{build_order, EdgeSlot, NodeEdge, NodeId, RenderGraphBuilder};
use graphics::graph_resources::{Id, RenderGraphBuffer, RenderGraphTexture};

fn device() -> RenderDevice {
    RenderDevice::new(Limits {
        min_uniform_buffer_offset_alignment: 256,
        min_storage_buffer_offset_alignment: 256,
        max_uniform_buffer_binding_size: 65536,
        max_storage_buffers_per_shader_stage: 8,
    })
}

fn edge(from: EdgeSlot, to: EdgeSlot) -> NodeEdge {
    NodeEdge::from((from, to))
}

#[test]
fn chain_runs_in_dependency_order() {
    let nodes = vec![NodeId::new(1), NodeId::new(2), NodeId::new(3)];
    let edges = vec![
        edge(
            EdgeSlot::write::<RenderGraphTexture>(NodeId::new(1), "color"),
            EdgeSlot::read::<RenderGraphTexture>(NodeId::new(2), "color"),
        ),
        edge(
            EdgeSlot::write::<RenderGraphBuffer>(NodeId::new(2), "lights"),
            EdgeSlot::read::<RenderGraphBuffer>(NodeId::new(3), "lights"),
        ),
    ];
    let order = build_order(&nodes, &edges).unwrap();
    assert_eq!(order, vec![vec![1], vec![2]]);
}

#[test]
fn independent_targets_share_a_layer() {
    let nodes = vec![NodeId::new(10), NodeId::new(20), NodeId::new(30)];
    let edges = vec![
        edge(
            EdgeSlot::write::<RenderGraphTexture>(NodeId::new(10), "shadow"),
            EdgeSlot::read::<RenderGraphTexture>(NodeId::new(20), "shadow"),
        ),
        edge(
            EdgeSlot::write::<RenderGraphTexture>(NodeId::new(10), "shadow"),
            EdgeSlot::read::<RenderGraphTexture>(NodeId::new(30), "shadow"),
        ),
    ];
    let order = build_order(&nodes, &edges).unwrap();
    assert_eq!(order.len(), 1);
    let mut layer = order[0].clone();
    layer.sort();
    assert_eq!(layer, vec![1, 2]);
}

#[test]
fn reads_alone_order_nothing() {
    let nodes = vec![NodeId::new(1), NodeId::new(2)];
    let edges = vec![
        edge(
            EdgeSlot::read::<RenderGraphTexture>(NodeId::new(1), "t"),
            EdgeSlot::read::<RenderGraphTexture>(NodeId::new(2), "t"),
        ),
        edge(
            EdgeSlot::write::<RenderGraphTexture>(NodeId::new(1), "a"),
            EdgeSlot::read::<RenderGraphTexture>(NodeId::new(2), "b"),
        ),
    ];
    assert_eq!(build_order(&nodes, &edges).unwrap(), Vec::<Vec<usize>>::new());
}

#[test]
fn cycle_gives_no_order() {
    let nodes = vec![NodeId::new(1), NodeId::new(2)];
    let edges = vec![
        edge(
            EdgeSlot::write::<RenderGraphTexture>(NodeId::new(1), "x"),
            EdgeSlot::read::<RenderGraphTexture>(NodeId::new(2), "x"),
        ),
        edge(
            EdgeSlot::write::<RenderGraphTexture>(NodeId::new(2), "y"),
            EdgeSlot::read::<RenderGraphTexture>(NodeId::new(1), "y"),
        ),
    ];
    assert!(build_order(&nodes, &edges).is_none());
}

#[test]
fn dependent_missing_from_nodes_gives_no_order() {
    let nodes = vec![NodeId::new(1)];
    let edges = vec![edge(
        EdgeSlot::write::<RenderGraphTexture>(NodeId::new(1), "x"),
        EdgeSlot::read::<RenderGraphTexture>(NodeId::new(9), "x"),
    )];
    assert!(build_order(&nodes, &edges).is_none());
}

#[test]
fn resource_ids_are_crc32_of_names() {
    let id: Id<RenderGraphTexture> = Id::new("main_color");
    assert_eq!(id.id(), crc32fast::hash(b"main_color"));
    assert_ne!(Id::<RenderGraphTexture>::new("a").id(), Id::<RenderGraphTexture>::new("b").id());
}

#[test]
fn builder_builds_graph_with_layers() {
    let mut builder = RenderGraphBuilder::new();
    builder.add_node(NodeId::new(1));
    builder.add_node(NodeId::new(2));
    builder.add_node(NodeId::new(1));
    assert_eq!(builder.node_count(), 2);
    assert!(builder.has_node(NodeId::new(2)));
    builder.add_edge(
        EdgeSlot::write::<RenderGraphTexture>(NodeId::new(1), "c"),
        EdgeSlot::read::<RenderGraphTexture>(NodeId::new(2), "c"),
    );
    let mut device = device();
    let graph = builder.build(&mut device, 640, 480).unwrap();
    assert_eq!(graph.layer_count(), 1);
    assert_eq!(graph.layer(0), &[1]);
    assert_eq!(graph.nodes().len(), 2);
}

#[test]
fn built_graph_runs_layer_after_layer_with_a_target() {
    let mut builder = RenderGraphBuilder::new();
    for n in 1..=3 {
        builder.add_node(NodeId::new(n));
    }
    builder.add_edge(
        EdgeSlot::write::<RenderGraphTexture>(NodeId::new(1), "color"),
        EdgeSlot::read::<RenderGraphTexture>(NodeId::new(2), "color"),
    );
    builder.add_edge(
        EdgeSlot::write::<RenderGraphTexture>(NodeId::new(2), "post"),
        EdgeSlot::read::<RenderGraphTexture>(NodeId::new(3), "post"),
    );
    let mut device = device();
    let graph = builder.build(&mut device, 64, 64).unwrap();
    assert_eq!(graph.run_order(true), vec![1, 2]);
    assert!(graph.run_order(false).is_empty());
}

#[test]
fn writer_outside_the_graph_orders_its_reader_first() {
    let mut builder = RenderGraphBuilder::new();
    builder.add_node(NodeId::new(20));
    builder.add_node(NodeId::new(30));
    builder.add_edge(
        EdgeSlot::write::<RenderGraphTexture>(NodeId::new(10), "a"),
        EdgeSlot::read::<RenderGraphTexture>(NodeId::new(20), "a"),
    );
    builder.add_edge(
        EdgeSlot::write::<RenderGraphTexture>(NodeId::new(20), "b"),
        EdgeSlot::read::<RenderGraphTexture>(NodeId::new(30), "b"),
    );
    assert_eq!(builder.build_order(), Some(vec![vec![0], vec![1]]));
}

#[test]
fn slots_of_different_kinds_never_depend() {
    let nodes = vec![NodeId::new(1), NodeId::new(2)];
    let edges = vec![edge(
        EdgeSlot::write::<RenderGraphTexture>(NodeId::new(1), "same"),
        EdgeSlot::read::<RenderGraphBuffer>(NodeId::new(2), "same"),
    )];
    assert_eq!(build_order(&nodes, &edges), Some(vec![]));
}
