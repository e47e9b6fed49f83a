use graphics::binding::CreateBindGroupError;
use graphics::bytes::round_up;
use graphics::graph_resources::{GraphResource, GraphResourceId, RenderGraphBuffer, RenderGraphTexture};
use graphics::pipeline_extract::{LoadPath, PipelineShaders};
use graphics::flags::{BufferUsages, ShaderStages};
use graphics::shader::{ShaderFileKind, ShaderSource, ShaderStage};
use graphics::render_asset::RenderAssets;
use graphics::render_texture::RenderTexture;
use graphics::surface::{
    choose_surface_format, on_window_resized, set_surface_texture, RenderSurface, RenderSurfaceTexture, SurfaceTarget,
};
use graphics::texture::{
    FilterMode, Texture, Texture1d, Texture2d, Texture2dArray, TextureCube, TextureFace, TextureFormat, WrapMode,
};

#[test]
fn shader_extensions_are_the_known_kinds() {
    let exts = ShaderSource::extensions();
    assert_eq!(exts, vec!["spv", "wgsl", "vert", "frag", "comp"]);
    for ext in &exts {
        assert!(ShaderSource::file_kind(ext).is_some());
    }
    assert_eq!(ShaderSource::file_kind("spv"), Some(ShaderFileKind::Spirv));
    assert_eq!(ShaderSource::file_kind("frag"), Some(ShaderFileKind::Glsl(ShaderStage::Fragment)));
    assert_eq!(ShaderSource::file_kind("png"), None);
}

#[test]
fn default_2d_texture_is_one_white_pixel() {
    let t = Texture2d::default();
    assert_eq!((t.width(), t.height()), (1, 1));
    assert_eq!(t.format(), TextureFormat::Rgba8Unorm);
    assert_eq!(t.filter_mode(), FilterMode::Linear);
    assert_eq!(t.wrap_mode(), WrapMode::ClampToEdge);
    assert!(!t.mipmaps());
    assert_eq!(t.pixels(0, 4), &[255u8, 255, 255, 255]);
    assert_eq!(t.faces(), &[TextureFace::new(0, 4)]);
}

#[test]
fn default_array_and_cube_textures() {
    let a = Texture2dArray::default();
    assert_eq!(a.faces(), &[TextureFace::new(0, 4)]);
    assert_eq!(a.pixels(0, 4), &[255u8, 255, 255, 255]);
    let c = TextureCube::default();
    assert_eq!(c.faces().len(), 6);
    assert_eq!(c.pixels(0, 4), &[0u8, 0, 0, 0]);
    let d = Texture1d::default();
    assert_eq!(d.width(), 1);
    assert_eq!(d.pixels(0, 4), &[255u8, 255, 255, 255]);
}

#[test]
fn colored_textures_repeat_their_pixel() {
    let t = Texture2d::red(2, 3);
    assert_eq!(t.pixels(0, 24), [255u8, 0, 0, 255].repeat(6).as_slice());
    let g = Texture2d::gray(1, 1);
    assert_eq!(g.pixels(0, 4), &[128u8, 128, 128, 255]);
}

#[test]
fn surface_prefers_the_first_srgb_format() {
    let formats = [TextureFormat::Rgba8Unorm, TextureFormat::Bgra8UnormSrgb, TextureFormat::Rgba8UnormSrgb];
    assert_eq!(choose_surface_format(&formats), TextureFormat::Bgra8UnormSrgb);
    let plain = [TextureFormat::Bgra8Unorm, TextureFormat::Rgba8Unorm];
    assert_eq!(choose_surface_format(&plain), TextureFormat::Bgra8Unorm);
}

#[test]
fn union_contains_both_sides() {
    let a = BufferUsages::uniform();
    let b = BufferUsages::copy_dst();
    let u = a.union(b);
    assert!(u.contains(a) && u.contains(b));
    assert_eq!(u.bits(), 72);
    assert!(!a.contains(b));
    let stages = ShaderStages::vertex().union(ShaderStages::fragment());
    assert_eq!(stages.bits(), ShaderStages::vertex_fragment().bits());
}

#[test]
fn round_up_to_alignment() {
    assert_eq!(round_up(0, 256), 0);
    assert_eq!(round_up(1, 256), 256);
    assert_eq!(round_up(256, 256), 256);
    assert_eq!(round_up(257, 64), 320);
}

#[test]
fn window_resize_updates_surface_and_its_target() {
    let mut surface = RenderSurface::new(&[TextureFormat::Bgra8UnormSrgb], 800, 600);
    let mut targets: RenderAssets<SurfaceTarget> = RenderAssets::new();
    assert!(!on_window_resized(None, &mut surface, &mut targets));
    assert_eq!(surface.width(), 800);
    assert!(!on_window_resized(Some((1024, 768)), &mut surface, &mut targets));
    assert_eq!((surface.width(), surface.height()), (1024, 768));
    let target =
        SurfaceTarget { width: 1024, height: 768, color_texture: 1, color: 3, depth_texture: 2, depth: 4 };
    targets.add(RenderSurface::id(), target);
    assert!(on_window_resized(Some((640, 480)), &mut surface, &mut targets));
    let t = targets.get(RenderSurface::id()).unwrap();
    assert_eq!((t.width, t.height, t.color), (640, 480, 3));
}

#[test]
fn acquired_frame_is_stored_under_the_surface_id() {
    let mut textures: RenderAssets<RenderTexture> = RenderAssets::new();
    let mut frame: RenderSurfaceTexture<&str> = RenderSurfaceTexture::empty();
    set_surface_texture("frame", 42, &mut textures, &mut frame);
    let t = textures.get(0).unwrap();
    assert_eq!(t.texture(), None);
    assert_eq!(t.view(), 42);
    assert_eq!(frame.present(), Some("frame"));
    assert_eq!(frame.present(), None);
}

#[test]
fn bind_group_errors_read_as_the_original_prints_them() {
    assert_eq!(CreateBindGroupError::InvalidLayout.to_string(), "Invalid bind group layout");
    assert_eq!(CreateBindGroupError::MissingTexture { id: 42 }.to_string(), "Missing texture: 42");
    assert_eq!(CreateBindGroupError::MissingSampler { id: 0 }.to_string(), "Missing sampler: 0");
    assert_eq!(CreateBindGroupError::MissingBuffer.to_string(), "Missing buffer");
    assert_eq!(CreateBindGroupError::from_error("boom".to_string()).to_string(), "boom");
    assert_eq!(
        CreateBindGroupError::MissingTexture { id: u128::MAX }.to_string(),
        format!("Missing texture: {}", u128::MAX)
    );
}

#[test]
fn pipeline_shaders_from_a_pair_is_vertex_then_fragment() {
    let s = PipelineShaders::from((LoadPath::Id(1), LoadPath::Id(2)));
    match s {
        PipelineShaders::Render { vertex: LoadPath::Id(v), fragment: LoadPath::Id(f) } => assert_eq!((v, f), (1, 2)),
        _ => panic!("expected render shaders"),
    }
}

#[test]
fn resource_ids_carry_their_kind() {
    assert!(matches!(RenderGraphTexture::id("main"), GraphResourceId::Texture(_)));
    assert!(matches!(RenderGraphBuffer::id("main"), GraphResourceId::Buffer(_)));
    assert!(!RenderGraphTexture::id("main").same(&RenderGraphBuffer::id("main")));
    assert!(RenderGraphTexture::id("main").same(&RenderGraphTexture::id("main")));
}
