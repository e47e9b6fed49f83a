use crate::device::{DeviceCommand, RenderDevice};
use crate::flags::TextureUsages;
use crate::render_asset::RenderAssets;
use crate::render_texture::RenderTexture;
use crate::texture::{StorageDimension, TextureDescriptor, TextureFormat};
use vstd::prelude::*;

verus! {

/// How the surface is configured.
#[derive(Clone, Copy, PartialEq, Eq, Structural, Debug)]
pub struct SurfaceConfig {
    pub usage: TextureUsages,
    pub format: TextureFormat,
    pub width: u32,
    pub height: u32,
    /// The index, among the surface's present modes, of the one used.
    pub present_mode: u32,
    /// The index, among the surface's alpha modes, of the one used.
    pub alpha_mode: u32,
    pub desired_maximum_frame_latency: u32,
}

/// Why a surface could not be created.
#[derive(Clone, Copy, PartialEq, Eq, Structural, Debug)]
pub enum RenderSurfaceError {
    Create,
    Adapter,
    DisplayHandle,
    WindowHandle,
}

impl RenderSurfaceError {
    /// The text the error is shown as, without the underlying cause.
    pub fn message(&self) -> (r: &'static str)
        ensures
            *self == RenderSurfaceError::Create ==> r@ == "Failed to create surface"@,
            *self == RenderSurfaceError::Adapter ==> r@ == "Failed to request adapter"@,
            *self == RenderSurfaceError::DisplayHandle ==> r@ == "Display handle unavailable"@,
            *self == RenderSurfaceError::WindowHandle ==> r@ == "Window handle unavailable"@,
    {
        match self {
            RenderSurfaceError::Create => "Failed to create surface",
            RenderSurfaceError::Adapter => "Failed to request adapter",
            RenderSurfaceError::DisplayHandle => "Display handle unavailable",
            RenderSurfaceError::WindowHandle => "Window handle unavailable",
        }
    }
}

/// Whether a format stores colour in sRGB.
pub open spec fn is_srgb_format(f: TextureFormat) -> bool {
    f == TextureFormat::Rgba8UnormSrgb || f == TextureFormat::Bgra8UnormSrgb
}

/// The surface format to use: the first sRGB one the surface offers, else
/// its first.
pub fn choose_surface_format(formats: &[TextureFormat]) -> (r: TextureFormat)
    requires
        formats@.len() > 0,
    ensures
        (exists|i: int| 0 <= i < formats@.len() && is_srgb_format(formats@[i])) ==> {
            exists|i: int|
                0 <= i < formats@.len() && r == formats@[i] && is_srgb_format(r) && forall|j: int|
                    0 <= j < i ==> !is_srgb_format(#[trigger] formats@[j])
        },
        !(exists|i: int| 0 <= i < formats@.len() && is_srgb_format(formats@[i])) ==> r == formats@[0],
{
    let mut i: usize = 0;
    while i < formats.len()
        invariant
            i <= formats@.len(),
            forall|j: int| 0 <= j < i ==> !is_srgb_format(#[trigger] formats@[j]),
        decreases formats@.len() - i,
    {
        if formats[i].is_srgb() {
            return formats[i];
        }
        i = i + 1;
    }
    formats[0]
}

/// The abstract state of a render surface.
pub struct RenderSurfaceView {
    pub config: SurfaceConfig,
    pub format: TextureFormat,
    pub depth_format: TextureFormat,
}

/// What the renderer keeps of a window surface: its configuration, colour
/// format and depth format.
pub struct RenderSurface {
    config: SurfaceConfig,
    format: TextureFormat,
    depth_format: TextureFormat,
}

impl View for RenderSurface {
    type V = RenderSurfaceView;

    closed spec fn view(&self) -> RenderSurfaceView {
        RenderSurfaceView { config: self.config, format: self.format, depth_format: self.depth_format }
    }
}

impl RenderSurface {
    /// The id the surface's render target is stored under.
    pub fn id() -> (r: u128)
        ensures
            r == 0,
    {
        0
    }

    /// Configures a surface of `width` by `height` that offers `formats`:
    /// it renders to attachments, in the chosen format, with the surface's
    /// first present and alpha modes, at most three frames ahead, with a
    /// 32-bit float depth format.
    pub fn new(formats: &[TextureFormat], width: u32, height: u32) -> (r: RenderSurface)
        requires
            formats@.len() > 0,
        ensures
            r@.format == r@.config.format,
            r@.config.usage.bits == 16,
            r@.config.width == width,
            r@.config.height == height,
            r@.config.present_mode == 0,
            r@.config.alpha_mode == 0,
            r@.config.desired_maximum_frame_latency == 3,
            r@.depth_format == TextureFormat::Depth32Float,
            (exists|i: int| 0 <= i < formats@.len() && is_srgb_format(formats@[i])) ==> {
                exists|i: int|
                    0 <= i < formats@.len() && r@.format == formats@[i] && is_srgb_format(r@.format) && forall|
                        j: int,
                    |
                        0 <= j < i ==> !is_srgb_format(#[trigger] formats@[j])
            },
            !(exists|i: int| 0 <= i < formats@.len() && is_srgb_format(formats@[i])) ==> r@.format == formats@[0],
    {
        let format = choose_surface_format(formats);
        let config = SurfaceConfig {
            usage: TextureUsages::render_attachment(),
            format,
            width,
            height,
            present_mode: 0,
            alpha_mode: 0,
            desired_maximum_frame_latency: 3,
        };
        RenderSurface { config, format, depth_format: TextureFormat::Depth32Float }
    }

    /// Sets the configured size; the device surface is then reconfigured.
    pub fn resize(&mut self, width: u32, height: u32)
        ensures
            final(self)@ == (RenderSurfaceView {
                config: SurfaceConfig { width, height, ..old(self)@.config },
                ..old(self)@
            }),
    {
        self.config.width = width;
        self.config.height = height;
    }

    pub fn config(&self) -> (r: SurfaceConfig)
        ensures
            r == self@.config,
    {
        self.config
    }

    pub fn width(&self) -> (r: u32)
        ensures
            r == self@.config.width,
    {
        self.config.width
    }

    pub fn height(&self) -> (r: u32)
        ensures
            r == self@.config.height,
    {
        self.config.height
    }

    pub fn format(&self) -> (r: TextureFormat)
        ensures
            r == self@.format,
    {
        self.format
    }

    pub fn depth_format(&self) -> (r: TextureFormat)
        ensures
            r == self@.depth_format,
    {
        self.depth_format
    }
}

/// The frame texture of the surface, once acquired.
pub struct RenderSurfaceTexture<T> {
    texture: Option<T>,
}

impl<T> RenderSurfaceTexture<T> {
    pub fn new(texture: T) -> (r: RenderSurfaceTexture<T>)
        ensures
            r.spec_texture() == Some(texture),
    {
        RenderSurfaceTexture { texture: Some(texture) }
    }

    /// No texture.
    pub fn empty() -> (r: RenderSurfaceTexture<T>)
        ensures
            r.spec_texture() is None,
    {
        RenderSurfaceTexture { texture: None }
    }

    pub closed spec fn spec_texture(&self) -> Option<T> {
        self.texture
    }

    pub fn get(&self) -> (r: Option<&T>)
        ensures
            match r {
                Some(t) => self.spec_texture() == Some(*t),
                None => self.spec_texture() is None,
            },
    {
        match &self.texture {
            Some(t) => Some(t),
            None => None,
        }
    }

    pub fn set(&mut self, texture: T)
        ensures
            final(self).spec_texture() == Some(texture),
    {
        self.texture = Some(texture);
    }

    /// Takes out the texture to present; afterwards there is none.
    pub fn present(&mut self) -> (r: Option<T>)
        ensures
            r == old(self).spec_texture(),
            final(self).spec_texture() is None,
    {
        let mut taken = None;
        std::mem::swap(&mut taken, &mut self.texture);
        taken
    }
}

/// The colour and depth targets of the surface.
#[derive(Clone, Copy, PartialEq, Eq, Structural, Debug)]
pub struct SurfaceTarget {
    pub width: u32,
    pub height: u32,
    pub color_texture: u64,
    pub color: u64,
    pub depth_texture: u64,
    pub depth: u64,
}

/// The descriptor of a single-level 2D surface texture.
pub open spec fn surface_texture_desc(desc: TextureDescriptor, width: u32, height: u32, format: TextureFormat, usage: u32) -> bool {
    &&& desc.width == width
    &&& desc.height == height
    &&& desc.depth_or_array_layers == 1
    &&& desc.mip_level_count == 1
    &&& desc.sample_count == 1
    &&& desc.dimension == StorageDimension::D2
    &&& desc.format == format
    &&& desc.view_format == Some(format)
    &&& desc.usage.bits == usage
}

/// Creates the surface's colour texture (labelled "Surface Color", used as
/// attachment and for sampling) and depth texture ("Surface Depth", used as
/// attachment) at its size, then a view of each.
pub fn create_surface_target(
    device: &mut RenderDevice,
    width: u32,
    height: u32,
    format: TextureFormat,
    depth_format: TextureFormat,
) -> (r: SurfaceTarget)
    requires
        old(device)@.next_id + 4 <= u64::MAX,
    ensures
        r.width == width,
        r.height == height,
        r.color_texture == old(device)@.next_id,
        r.depth_texture == old(device)@.next_id + 1,
        r.color == old(device)@.next_id + 2,
        r.depth == old(device)@.next_id + 3,
        final(device)@.next_id == old(device)@.next_id + 4,
        final(device)@.limits == old(device)@.limits,
        final(device)@.commands.len() == old(device)@.commands.len() + 4,
        final(device)@.commands.subrange(0, old(device)@.commands.len() as int) == old(device)@.commands,
        ({
            let c = final(device)@.commands;
            let n = old(device)@.commands.len() as int;
            &&& c[n] matches DeviceCommand::CreateTexture { id, desc } && id == r.color_texture
                && surface_texture_desc(desc, width, height, format, 20) && (desc.label matches Some(l) && l@
                == "Surface Color"@)
            &&& c[n + 1] matches DeviceCommand::CreateTexture { id, desc } && id == r.depth_texture
                && surface_texture_desc(desc, width, height, depth_format, 16) && (desc.label matches Some(l)
                && l@ == "Surface Depth"@)
            &&& c[n + 2] == DeviceCommand::CreateTextureView { id: r.color, texture: r.color_texture }
            &&& c[n + 3] == DeviceCommand::CreateTextureView { id: r.depth, texture: r.depth_texture }
        }),
{
    let ghost d0 = device@;
    let color_texture = device.allocate_id();
    device.submit(
        DeviceCommand::CreateTexture {
            id: color_texture,
            desc: TextureDescriptor {
                label: Some(String::from_str("Surface Color")),
                width,
                height,
                depth_or_array_layers: 1,
                mip_level_count: 1,
                sample_count: 1,
                dimension: StorageDimension::D2,
                format,
                view_format: Some(format),
                usage: TextureUsages::render_attachment().union(TextureUsages::texture_binding()),
            },
        },
    );
    let depth_texture = device.allocate_id();
    device.submit(
        DeviceCommand::CreateTexture {
            id: depth_texture,
            desc: TextureDescriptor {
                label: Some(String::from_str("Surface Depth")),
                width,
                height,
                depth_or_array_layers: 1,
                mip_level_count: 1,
                sample_count: 1,
                dimension: StorageDimension::D2,
                format: depth_format,
                view_format: Some(depth_format),
                usage: TextureUsages::render_attachment(),
            },
        },
    );
    let color = device.allocate_id();
    device.submit(DeviceCommand::CreateTextureView { id: color, texture: color_texture });
    let depth = device.allocate_id();
    device.submit(DeviceCommand::CreateTextureView { id: depth, texture: depth_texture });
    proof {
        assert(16u32 | 4u32 == 20u32) by (bit_vector);
        assert(device@.commands.subrange(0, d0.commands.len() as int) =~= d0.commands);
    }
    SurfaceTarget { width, height, color_texture, color, depth_texture, depth }
}

/// After the window was resized (to the last size, when there was a resize):
/// the surface takes the new size and so does its render target, if there
/// is one. Whether the render graph must then be resized: exactly when the
/// surface's target exists.
pub fn on_window_resized(
    size: Option<(u32, u32)>,
    surface: &mut RenderSurface,
    targets: &mut RenderAssets<SurfaceTarget>,
) -> (r: bool)
    ensures
        match size {
            None => !r && final(surface)@ == old(surface)@ && final(targets)@ == old(targets)@,
            Some((width, height)) => {
                &&& final(surface)@ == (RenderSurfaceView {
                    config: SurfaceConfig { width, height, ..old(surface)@.config },
                    ..old(surface)@
                })
                &&& r == old(targets)@.contains_key(0)
                &&& final(targets)@ == if r {
                    old(targets)@.insert(0, SurfaceTarget { width, height, ..old(targets)@[0] })
                } else {
                    old(targets)@
                }
            },
        },
{
    match size {
        None => false,
        Some((width, height)) => {
            surface.resize(width, height);
            let id = RenderSurface::id();
            match targets.get(id) {
                Some(t) => {
                    let updated = SurfaceTarget { width, height, ..*t };
                    targets.add(id, updated);
                    true
                },
                None => false,
            }
        },
    }
}

/// Once a frame was acquired: a texture of the frame's `view` (with no
/// texture object of its own) is stored under the surface's id, and the
/// frame is kept to be presented.
pub fn set_surface_texture<T>(
    frame: T,
    view: u64,
    textures: &mut RenderAssets<RenderTexture>,
    surface_texture: &mut RenderSurfaceTexture<T>,
)
    ensures
        final(textures)@.contains_key(0),
        final(textures)@[0].spec_texture() is None,
        final(textures)@[0].spec_view() == view,
        final(textures)@.remove(0) == old(textures)@.remove(0),
        final(surface_texture).spec_texture() == Some(frame),
{
    let texture = RenderTexture::new(None, view);
    textures.add(RenderSurface::id(), texture);
    assert(textures@.remove(0) =~= old(textures)@.remove(0));
    surface_texture.set(frame);
}

} // verus!
