use graphics::binding::BindGroupLayout;
use graphics::device::{DeviceCommand, Limits, RenderDevice};
use graphics::handle::{Handle, Id};
use graphics::material::{BlendMode, DepthWrite, VertexAttribute};
use graphics::material_pipeline::{MaterialPipelineDesc, MaterialPipelines, MaterialType};
use graphics::mesh::VertexStepMode;
use graphics::pipeline::{
    ComputePipeline, ComputePipelineDesc, MultisampleState, PrimitiveState, RenderPipeline, RenderPipelineDesc,
    VertexState,
};
use graphics::pipeline_extract::{LoadPath, PipelineAction, PipelineExtractorKind, PipelineExtractors, PipelineShaders};
use graphics::render_asset::RenderAssets;
use graphics::shader::{Shader, ShaderMeta, ShaderSource};
use graphics::texture::{CompareFunction, TextureFormat};

fn device() -> RenderDevice {
    RenderDevice::new(Limits {
        min_uniform_buffer_offset_alignment: 256,
        min_storage_buffer_offset_alignment: 256,
        max_uniform_buffer_binding_size: 65536,
        max_storage_buffers_per_shader_stage: 8,
    })
}

fn wgsl_shader(device: &mut RenderDevice, entry: &str, instances: Option<u32>) -> Shader {
    let meta = match instances {
        Some(n) => ShaderMeta::with_instances(entry.to_string(), n),
        None => ShaderMeta::new(entry.to_string()),
    };
    Shader::create(device, ShaderSource::Wgsl { data: String::from("@vertex fn vs() {}"), meta })
}

#[test]
fn render_pipeline_without_layout_takes_one_id() {
    let mut device = device();
    let shader = wgsl_shader(&mut device, "vs", Some(4));
    assert_eq!(shader.module(), 1);
    let desc = RenderPipelineDesc {
        label: Some("sprites"),
        layout: None,
        vertex: VertexState { shader: &shader, entry: "vs", buffers: Vec::new() },
        fragment: None,
        primitive: PrimitiveState::default(),
        depth_state: None,
        multisample: MultisampleState::default(),
    };
    let pipeline = RenderPipeline::create(&mut device, desc);
    assert_eq!(pipeline.id(), 2);
    assert_eq!(pipeline.instances(), Some(4));
    let commands = device.commands();
    assert_eq!(commands.len(), 2);
    match &commands[1] {
        DeviceCommand::CreateRenderPipeline { id, label, layout, vertex_module, vertex_entry, fragment, .. } => {
            assert_eq!(*id, 2);
            assert_eq!(label.as_deref(), Some("sprites"));
            assert_eq!(*layout, None);
            assert_eq!(*vertex_module, 1);
            assert_eq!(vertex_entry, "vs");
            assert!(fragment.is_none());
        },
        _ => panic!("expected a render pipeline"),
    }
}

#[test]
fn render_pipeline_with_layout_creates_the_layout_first() {
    let mut device = device();
    let shader = wgsl_shader(&mut device, "main", None);
    let a = BindGroupLayout::new(10, Vec::new());
    let b = BindGroupLayout::new(11, Vec::new());
    let layouts = [&a, &b];
    let desc = RenderPipelineDesc {
        label: None,
        layout: Some(&layouts),
        vertex: VertexState { shader: &shader, entry: "main", buffers: Vec::new() },
        fragment: None,
        primitive: PrimitiveState::default(),
        depth_state: None,
        multisample: MultisampleState::default(),
    };
    let pipeline = RenderPipeline::create(&mut device, desc);
    assert_eq!(pipeline.id(), 3);
    assert_eq!(pipeline.instances(), None);
    let commands = device.commands();
    assert_eq!(commands.len(), 3);
    match &commands[1] {
        DeviceCommand::CreatePipelineLayout { id, bind_group_layouts } => {
            assert_eq!(*id, 2);
            assert_eq!(bind_group_layouts, &vec![10, 11]);
        },
        _ => panic!("expected a pipeline layout"),
    }
    assert!(matches!(&commands[2], DeviceCommand::CreateRenderPipeline { id: 3, layout: Some(2), .. }));
    let more = pipeline.with_instances(7);
    assert_eq!(more.id(), 3);
    assert_eq!(more.instances(), Some(7));
}

#[test]
fn compute_pipeline_missing_shader_gives_none() {
    let mut device = device();
    let shaders: RenderAssets<Shader> = RenderAssets::new();
    let desc = ComputePipelineDesc {
        label: None,
        layout: None,
        shader: Handle::Ref(Id::new(42)),
        entry: String::from("main"),
    };
    assert!(ComputePipeline::create(&mut device, desc, &shaders).is_none());
    assert_eq!(device.commands().len(), 0);
}

#[test]
fn compute_pipeline_finds_shader_by_id() {
    let mut device = device();
    let mut shaders: RenderAssets<Shader> = RenderAssets::new();
    let shader = wgsl_shader(&mut device, "cs", None);
    shaders.add(42, shader);
    let desc = ComputePipelineDesc {
        label: Some("cull"),
        layout: None,
        shader: Handle::Ref(Id::new(42)),
        entry: String::from("cs"),
    };
    let pipeline = ComputePipeline::create(&mut device, desc, &shaders).unwrap();
    assert_eq!(pipeline.inner(), 2);
    match device.commands().last().unwrap() {
        DeviceCommand::CreateComputePipeline { id, module, entry, .. } => {
            assert_eq!(*id, 2);
            assert_eq!(*module, 1);
            assert_eq!(entry, "cs");
        },
        _ => panic!("expected a compute pipeline"),
    }
}

fn render_kind(vertex: &str, fragment: &str) -> PipelineExtractorKind {
    PipelineExtractorKind::Render {
        vertex_shader: LoadPath::Path(vertex.to_string()),
        fragment_shader: LoadPath::Path(fragment.to_string()),
    }
}

fn queued(extractors: &mut PipelineExtractors) -> Vec<(u32, PipelineAction)> {
    let actions = extractors.take_actions();
    let mut out = Vec::new();
    for i in 0..actions.len() {
        let k = actions.key_at(i);
        out.push((k, *actions.get(k).unwrap()));
    }
    out
}

#[test]
fn extraction_waits_for_all_shaders() {
    let mut extractors = PipelineExtractors::new();
    extractors.add_extractor(7, render_kind("a.wgsl", "b.wgsl"));
    extractors.extract(7);
    assert!(queued(&mut extractors).is_empty());
    assert_eq!(extractors.state(0).action(), Some(PipelineAction::Extract));
    extractors.shader_updated(LoadPath::Path("a.wgsl".to_string()), true);
    assert!(queued(&mut extractors).is_empty());
    extractors.shader_updated(LoadPath::Path("b.wgsl".to_string()), true);
    assert_eq!(queued(&mut extractors), vec![(7, PipelineAction::Extract)]);
    assert!(extractors.state(0).are_shaders_loaded());
}

#[test]
fn extract_with_loaded_shaders_queues_at_once() {
    let mut extractors = PipelineExtractors::new();
    extractors.add_extractor(3, PipelineExtractorKind::Compute { shader: LoadPath::Id(99) });
    extractors.shader_updated(LoadPath::Id(99), true);
    assert!(queued(&mut extractors).is_empty());
    extractors.extract(3);
    assert_eq!(queued(&mut extractors), vec![(3, PipelineAction::Extract)]);
}

#[test]
fn remove_needs_a_prior_extract() {
    let mut extractors = PipelineExtractors::new();
    extractors.add_extractor(1, PipelineExtractorKind::Compute { shader: LoadPath::Id(5) });
    extractors.remove(1);
    assert!(queued(&mut extractors).is_empty());
    assert_eq!(extractors.state(0).action(), None);
    extractors.extract(1);
    extractors.remove(1);
    assert_eq!(queued(&mut extractors), vec![(1, PipelineAction::Remove)]);
    extractors.remove(1);
    assert!(queued(&mut extractors).is_empty());
}

#[test]
fn adding_an_extractor_twice_keeps_the_first() {
    let mut extractors = PipelineExtractors::new();
    extractors.add_extractor(4, render_kind("v", "f"));
    extractors.add_extractor(4, PipelineExtractorKind::Compute { shader: LoadPath::Id(1) });
    assert_eq!(extractors.types(), &[4]);
    assert!(!extractors.state(0).are_shaders_loaded());
}

#[test]
fn unloading_a_shader_queues_nothing() {
    let mut extractors = PipelineExtractors::new();
    extractors.add_extractor(8, render_kind("v8", "f8"));
    extractors.shader_updated(LoadPath::Path("v8".to_string()), true);
    extractors.shader_updated(LoadPath::Path("f8".to_string()), true);
    extractors.extract(8);
    extractors.shader_updated(LoadPath::Path("f8".to_string()), false);
    assert_eq!(queued(&mut extractors), vec![(8, PipelineAction::Extract)]);
    extractors.shader_updated(LoadPath::Path("v8".to_string()), false);
    assert!(queued(&mut extractors).is_empty());
    assert!(!extractors.state(0).are_shaders_loaded());
}

#[test]
fn shared_shader_updates_every_extractor() {
    let mut extractors = PipelineExtractors::new();
    extractors.add_extractor(1, render_kind("common.wgsl", "one.wgsl"));
    extractors.add_extractor(2, render_kind("common.wgsl", "two.wgsl"));
    extractors.shader_updated(LoadPath::Path("one.wgsl".to_string()), true);
    extractors.shader_updated(LoadPath::Path("two.wgsl".to_string()), true);
    extractors.extract(1);
    extractors.extract(2);
    assert!(queued(&mut extractors).is_empty());
    extractors.shader_updated(LoadPath::Path("common.wgsl".to_string()), true);
    assert_eq!(queued(&mut extractors), vec![(1, PipelineAction::Extract), (2, PipelineAction::Extract)]);
    extractors.shader_updated(LoadPath::Path("common.wgsl".to_string()), false);
    assert!(queued(&mut extractors).is_empty());
    assert!(!extractors.state(0).are_shaders_loaded());
    extractors.shader_updated(LoadPath::Path("unknown.wgsl".to_string()), true);
    assert!(queued(&mut extractors).is_empty());
}

#[test]
fn pipeline_shaders_constructors() {
    match PipelineShaders::render(LoadPath::Id(1), LoadPath::Id(2)) {
        PipelineShaders::Render { vertex: LoadPath::Id(1), fragment: LoadPath::Id(2) } => {},
        _ => panic!("expected render shaders"),
    }
    assert!(matches!(PipelineShaders::compute(LoadPath::Id(3)), PipelineShaders::Compute { shader: LoadPath::Id(3) }));
}

#[test]
fn material_layout_is_created_once_and_tracks_dependencies() {
    let mut pipelines = MaterialPipelines::new();
    let ty = MaterialType { surface: 1, material: 2 };
    assert_eq!(pipelines.create_layout(ty, 100, Some(BindGroupLayout::new(9, Vec::new()))), 9);
    assert_eq!(pipelines.create_layout(ty, 101, None), 9);
    assert!(pipelines.has(ty));
    assert_eq!(pipelines.get(ty).unwrap().dependencies().len(), 2);
    assert!(!pipelines.remove_dependency(ty, 100));
    assert!(pipelines.remove_dependency(ty, 101));
    assert!(!pipelines.remove_dependency(MaterialType { surface: 5, material: 5 }, 1));
    assert!(pipelines.remove(ty).is_some());
    assert!(!pipelines.has(ty));
    assert!(pipelines.remove(ty).is_none());
}

#[test]
fn material_remove_moves_the_last_type_into_place() {
    let mut pipelines = MaterialPipelines::new();
    let a = MaterialType { surface: 0, material: 1 };
    let b = MaterialType { surface: 0, material: 2 };
    let c = MaterialType { surface: 0, material: 3 };
    pipelines.create_layout(a, 1, Some(BindGroupLayout::new(1, Vec::new())));
    pipelines.create_layout(b, 2, Some(BindGroupLayout::new(2, Vec::new())));
    pipelines.create_layout(c, 3, Some(BindGroupLayout::new(3, Vec::new())));
    assert_eq!(pipelines.remove(a).unwrap().layout().id(), 1);
    assert!(pipelines.has(b) && pipelines.has(c));
}

#[test]
fn material_pipeline_is_built_from_the_material() {
    let mut device = device();
    let vs = wgsl_shader(&mut device, "vertex_main", None);
    let fs = Shader::create(
        &mut device,
        ShaderSource::Glsl { data: String::from("void main() {}"), stage: graphics::shader::ShaderStage::Fragment },
    );
    let globals = BindGroupLayout::new(20, Vec::new());
    let mesh = BindGroupLayout::new(21, Vec::new());
    let mut pipelines = MaterialPipelines::new();
    let ty = MaterialType { surface: 1, material: 1 };
    let desc = MaterialPipelineDesc {
        format: TextureFormat::Bgra8UnormSrgb,
        depth_format: Some(TextureFormat::Depth32Float),
        globals: &globals,
        mesh: &mesh,
        model: None,
        vertex_shader: &vs,
        fragment_shader: &fs,
        label: Some("material"),
        attributes: vec![VertexAttribute::Vec3, VertexAttribute::Vec2],
        primitive: PrimitiveState::default(),
        depth_write: DepthWrite::On,
        mode: BlendMode::Transparent,
    };
    pipelines.create_pipeline(&mut device, ty, BindGroupLayout::new(22, Vec::new()), desc);
    let p = pipelines.get(ty).unwrap();
    assert_eq!(p.layout().id(), 22);
    assert_eq!(p.pipeline().unwrap().id(), 4);
    let commands = device.commands();
    assert_eq!(commands.len(), 4);
    match &commands[2] {
        DeviceCommand::CreatePipelineLayout { id, bind_group_layouts } => {
            assert_eq!(*id, 3);
            assert_eq!(bind_group_layouts, &vec![20, 21, 22]);
        },
        _ => panic!("expected a pipeline layout"),
    }
    match &commands[3] {
        DeviceCommand::CreateRenderPipeline { vertex_entry, buffers, fragment, depth_stencil, multisample, .. } => {
            assert_eq!(vertex_entry, "vertex_main");
            assert_eq!(buffers.len(), 1);
            assert_eq!(buffers[0].array_stride, 20);
            assert_eq!(buffers[0].step_mode, VertexStepMode::Vertex);
            assert_eq!(buffers[0].attributes[1].offset, 12);
            assert_eq!(buffers[0].attributes[1].shader_location, 1);
            let f = fragment.as_ref().unwrap();
            assert_eq!(f.entry, "main");
            assert_eq!(f.module, 2);
            assert_eq!(f.targets[0].unwrap().format, TextureFormat::Bgra8UnormSrgb);
            assert_eq!(f.targets[0].unwrap().blend, Some(BlendMode::Transparent.blend_state()));
            let d = depth_stencil.unwrap();
            assert!(d.depth_write_enabled);
            assert_eq!(d.depth_compare, CompareFunction::Less);
            assert_eq!(d.format, TextureFormat::Depth32Float);
            assert_eq!(multisample.count, 1);
        },
        _ => panic!("expected a render pipeline"),
    }
}

#[test]
fn pipeline_can_extract_once_its_shaders_are_loaded() {
    let mut loaded: RenderAssets<u32> = RenderAssets::new();
    let paths = vec![("lit.vert".to_string(), 10u128), ("lit.frag".to_string(), 11u128)];
    let render = PipelineShaders::render(
        LoadPath::Path("lit.vert".to_string()),
        LoadPath::Path("lit.frag".to_string()),
    );
    assert!(!render.can_extract(&paths, &loaded));
    loaded.add(10, 0);
    assert!(!render.can_extract(&paths, &loaded));
    loaded.add(11, 0);
    assert!(render.can_extract(&paths, &loaded));
    let unknown = PipelineShaders::compute(LoadPath::Path("other.comp".to_string()));
    assert!(!unknown.can_extract(&paths, &loaded));
    let by_id = PipelineShaders::compute(LoadPath::Id(11));
    assert!(by_id.can_extract(&[], &loaded));
}
