use graphics::shader::{
    BufferLayout, ShaderBindingKind, ShaderLoadError, ShaderMeta, ShaderSource, ShaderStage, ShaderValue, StorageAccess,
};
use graphics::shader_reflect::{
    array_value, binding_kind, struct_value, VariableSpace, GlobalBinding, ImageDim, ModuleDesc, ScalarClass,
    TypeDesc, VectorLen,
};

fn layout(values: Vec<ShaderValue>) -> BufferLayout {
    let mut l = BufferLayout::new();
    for v in values {
        l.add(v);
    }
    l
}

#[test]
fn struct_members_skip_non_values() {
    let members = vec![
        TypeDesc::Matrix { columns: VectorLen::Quad, rows: VectorLen::Quad },
        TypeDesc::Sampler { comparison: false },
        TypeDesc::Vector(VectorLen::Tri),
        TypeDesc::Scalar(ScalarClass::AbstractFloat),
    ];
    assert_eq!(
        struct_value(&members),
        Some(ShaderValue::Struct(vec![ShaderValue::Mat4, ShaderValue::Vec3, ShaderValue::Other]))
    );
}

#[test]
fn arrays_of_valueless_types_have_no_value() {
    assert_eq!(array_value(&TypeDesc::Image { dim: ImageDim::D2, arrayed: false }, Some(4)), None);
    assert_eq!(
        array_value(&TypeDesc::Scalar(ScalarClass::Uint), Some(4)),
        Some(ShaderValue::Array(Box::new(ShaderValue::UInt), Some(4)))
    );
    let bad = vec![TypeDesc::Array { base: Box::new(TypeDesc::Other), count: None }];
    assert_eq!(struct_value(&bad), None);
    assert_eq!(
        array_value(&TypeDesc::Matrix { columns: VectorLen::Bi, rows: VectorLen::Tri }, None),
        Some(ShaderValue::Array(Box::new(ShaderValue::Other), None))
    );
}

#[test]
fn binding_kinds_follow_type_and_space() {
    assert_eq!(
        binding_kind(VariableSpace::Uniform, &TypeDesc::Scalar(ScalarClass::Float)),
        Some(ShaderBindingKind::Uniform { layout: layout(vec![ShaderValue::Float]), count: None })
    );
    assert_eq!(
        binding_kind(
            VariableSpace::Storage { load: true, store: true },
            &TypeDesc::Array { base: Box::new(TypeDesc::Vector(VectorLen::Quad)), count: Some(8) }
        ),
        Some(ShaderBindingKind::Storage {
            layout: layout(vec![ShaderValue::Array(Box::new(ShaderValue::Vec4), Some(8))]),
            access: StorageAccess::ReadWrite,
            count: Some(8),
        })
    );
    assert_eq!(binding_kind(VariableSpace::Other, &TypeDesc::Scalar(ScalarClass::Sint)), None);
    assert_eq!(
        binding_kind(VariableSpace::Other, &TypeDesc::Image { dim: ImageDim::Cube, arrayed: false }),
        Some(ShaderBindingKind::Texture2D)
    );
    assert_eq!(
        binding_kind(VariableSpace::Other, &TypeDesc::Image { dim: ImageDim::Cube, arrayed: true }),
        Some(ShaderBindingKind::TextureCube)
    );
    assert_eq!(
        binding_kind(VariableSpace::Uniform, &TypeDesc::Sampler { comparison: true }),
        Some(ShaderBindingKind::Sampler { compare: true })
    );
    assert_eq!(
        binding_kind(VariableSpace::Uniform, &TypeDesc::Struct(vec![TypeDesc::Array {
            base: Box::new(TypeDesc::Other),
            count: None,
        }])),
        Some(ShaderBindingKind::Uniform { layout: BufferLayout::new(), count: None })
    );
}

#[test]
fn module_metadata_groups_bindings() {
    let module = ModuleDesc {
        entry: String::from("vs_main"),
        globals: vec![
            GlobalBinding {
                group: 0,
                binding: 0,
                space: VariableSpace::Uniform,
                ty: TypeDesc::Struct(vec![
                    TypeDesc::Matrix { columns: VectorLen::Quad, rows: VectorLen::Quad },
                    TypeDesc::Vector(VectorLen::Tri),
                ]),
            },
            GlobalBinding {
                group: 1,
                binding: 0,
                space: VariableSpace::Other,
                ty: TypeDesc::Image { dim: ImageDim::D2, arrayed: false },
            },
            GlobalBinding {
                group: 0,
                binding: 1,
                space: VariableSpace::Storage { load: true, store: false },
                ty: TypeDesc::Array { base: Box::new(TypeDesc::Vector(VectorLen::Quad)), count: None },
            },
            GlobalBinding {
                group: 1,
                binding: 1,
                space: VariableSpace::Other,
                ty: TypeDesc::Scalar(ScalarClass::Float),
            },
            GlobalBinding {
                group: 1,
                binding: 2,
                space: VariableSpace::Other,
                ty: TypeDesc::Sampler { comparison: false },
            },
        ],
    };
    let meta = ShaderMeta::from_module(&module);
    assert_eq!(meta.entry(), "vs_main");
    assert_eq!(meta.instances(), None);
    assert!(meta.inputs().is_empty() && meta.outputs().is_empty());
    let groups = meta.bindings();
    assert_eq!(groups.len(), 2);
    assert_eq!(groups[0].group(), 0);
    assert_eq!(groups[0].bindings().len(), 2);
    assert_eq!(groups[0].bindings()[0].binding, 0);
    assert_eq!(
        groups[0].bindings()[0].kind,
        ShaderBindingKind::Uniform {
            layout: layout(vec![ShaderValue::Struct(vec![ShaderValue::Mat4, ShaderValue::Vec3])]),
            count: None,
        }
    );
    assert_eq!(
        groups[0].bindings()[1].kind,
        ShaderBindingKind::Storage {
            layout: layout(vec![ShaderValue::Array(Box::new(ShaderValue::Vec4), None)]),
            access: StorageAccess::Read,
            count: None,
        }
    );
    assert_eq!(groups[1].group(), 1);
    assert_eq!(groups[1].bindings().len(), 2);
    assert_eq!(groups[1].bindings()[0].kind, ShaderBindingKind::Texture2D);
    assert_eq!(groups[1].bindings()[1].binding, 2);
    assert_eq!(groups[1].bindings()[1].kind, ShaderBindingKind::Sampler { compare: false });
}

#[test]
fn spirv_bytes_become_words() {
    let source = ShaderSource::spirv_from_bytes(&[3, 255, 0], ShaderMeta::new(String::from("main")));
    match source {
        ShaderSource::Spirv { data, meta } => {
            assert_eq!(data, vec![3u32, 255, 0]);
            assert_eq!(meta.entry(), "main");
        },
        _ => panic!("expected SPIR-V"),
    }
}

const WGSL: &str = "
struct Camera { view: mat4x4<f32>, position: vec3<f32> }
@group(0) @binding(0) var<uniform> camera: Camera;
@group(1) @binding(0) var tex: texture_2d<f32>;
@group(1) @binding(1) var samp: sampler;
@vertex fn vs_main() -> @builtin(position) vec4<f32> { return camera.view * vec4<f32>(camera.position, 1.0); }
";

#[test]
fn wgsl_import_reads_entry_and_bindings() {
    let source = ShaderSource::import(Some("wgsl"), WGSL.as_bytes().to_vec()).unwrap();
    match source {
        ShaderSource::Wgsl { data, meta } => {
            assert_eq!(data, WGSL);
            assert_eq!(meta.entry(), "vs_main");
            let groups = meta.bindings();
            assert_eq!(groups.len(), 2);
            assert_eq!(
                groups[0].bindings()[0].kind,
                ShaderBindingKind::Uniform {
                    layout: layout(vec![ShaderValue::Struct(vec![ShaderValue::Mat4, ShaderValue::Vec3])]),
                    count: None,
                }
            );
            assert_eq!(groups[1].bindings()[0].kind, ShaderBindingKind::Texture2D);
            assert_eq!(groups[1].bindings().len(), 2);
        },
        _ => panic!("expected WGSL"),
    }
}

#[test]
fn import_errors_by_kind() {
    assert_eq!(
        ShaderSource::import(None, vec![]),
        Err(ShaderLoadError::InvalidExt(String::from("Invalid extension: None")))
    );
    assert_eq!(
        ShaderSource::import(Some("png"), vec![]),
        Err(ShaderLoadError::InvalidExt(String::from("Invalid extension: Some(\"png\")")))
    );
    assert!(matches!(ShaderSource::import(Some("wgsl"), vec![0xff, 0xfe]), Err(ShaderLoadError::Io(_))));
    assert!(matches!(ShaderSource::import(Some("wgsl"), b"fn (".to_vec()), Err(ShaderLoadError::Parse(_))));
    assert!(matches!(ShaderSource::import(Some("spv"), vec![1, 2, 3]), Err(ShaderLoadError::Parse(_))));
    assert!(matches!(
        ShaderSource::import(Some("wgsl"), b"fn helper() {}".to_vec()),
        Err(ShaderLoadError::Parse(_))
    ));
}

#[test]
fn glsl_import_keeps_the_text_and_stage() {
    match ShaderSource::import(Some("frag"), b"void main() {}".to_vec()).unwrap() {
        ShaderSource::Glsl { data, stage } => {
            assert_eq!(data, "void main() {}");
            assert_eq!(stage, ShaderStage::Fragment);
        },
        _ => panic!("expected GLSL"),
    }
}
