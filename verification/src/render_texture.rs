use crate::device::{DeviceCommand, Label, RenderDevice};
use crate::flags::TextureUsages;
use crate::texture::{
    faces_fit, max_mips, spec_block_copy_size, spec_max_mips, spec_storage_dimension, FilterMode, SamplerDescriptor,
    Texture, Texture1d, Texture2d, Texture2dArray, Texture3d, TextureCube, TextureCubeArray, TextureDescriptor,
    TextureDimension, TextureFormat, WrapMode,
};
use vstd::prelude::*;

verus! {

/// A texture on the device (when the library created it) and the view that
/// passes read.
#[derive(Clone, Copy, PartialEq, Eq, Structural, Debug)]
pub struct RenderTexture {
    texture: Option<u64>,
    view: u64,
}

/// The descriptor a texture is created with.
pub open spec fn texture_descriptor<T: Texture>(t: &T) -> TextureDescriptor {
    TextureDescriptor {
        label: None,
        width: t.spec_width(),
        height: t.spec_height(),
        depth_or_array_layers: t.spec_depth(),
        mip_level_count: if t.spec_mipmaps() {
            spec_max_mips(
                t.spec_width(),
                t.spec_height(),
                t.spec_depth(),
                spec_storage_dimension(t.spec_dimension()),
            ) as u32
        } else {
            1
        },
        sample_count: 1,
        dimension: spec_storage_dimension(t.spec_dimension()),
        format: t.spec_format(),
        view_format: Some(t.spec_format()),
        usage: t.spec_usage(),
    }
}

/// The bytes per block of a format, 0 where it has none.
pub open spec fn block_bytes(format: TextureFormat) -> u32 {
    match spec_block_copy_size(format) {
        Some(b) => b,
        None => 0,
    }
}

impl RenderTexture {
    pub closed spec fn spec_texture(&self) -> Option<u64> {
        self.texture
    }

    pub closed spec fn spec_view(&self) -> u64 {
        self.view
    }

    /// A texture made of an existing texture (if any) and view.
    pub fn new(texture: Option<u64>, view: u64) -> (r: RenderTexture)
        ensures
            r.spec_texture() == texture,
            r.spec_view() == view,
    {
        RenderTexture { texture, view }
    }

    /// Creates the texture, uploads each of its layers, and creates a view
    /// of it. Layer `i` is written at layer `i` from its pixels, with rows of
    /// `block * width` bytes and `block * width / height` rows per image.
    pub fn create<T: Texture>(device: &mut RenderDevice, texture: &T) -> (r: RenderTexture)
        requires
            faces_fit(texture),
            old(device)@.next_id + 2 <= u64::MAX,
        ensures
            r.spec_texture() == Some(old(device)@.next_id),
            r.spec_view() == old(device)@.next_id + 1,
            final(device)@.next_id == old(device)@.next_id + 2,
            final(device)@.limits == old(device)@.limits,
            ({
                let n = old(device)@.commands.len() as int;
                let c = final(device)@.commands;
                let faces = texture.spec_faces();
                let row = block_bytes(texture.spec_format()) * texture.spec_width();
                &&& c.len() == n + 2 + faces.len()
                &&& c.subrange(0, n) == old(device)@.commands
                &&& c[n] == DeviceCommand::CreateTexture { id: old(device)@.next_id, desc: texture_descriptor(texture) }
                &&& forall|i: int|
                    0 <= i < faces.len() ==> (#[trigger] c[n + 1 + i] matches DeviceCommand::WriteTexture {
                        id,
                        layer,
                        data,
                        bytes_per_row,
                        rows_per_image,
                        width,
                        height,
                        depth,
                    } && id == old(device)@.next_id && layer == i && data@ == texture.spec_pixels().subrange(
                        faces[i].start as int,
                        faces[i].start + faces[i].size,
                    ) && bytes_per_row == Some(row as u32) && rows_per_image == Some(
                        (row / (texture.spec_height() as int)) as u32,
                    ) && width == texture.spec_width() && height == texture.spec_height() && depth == 1)
                &&& c[n + 1 + faces.len()] == DeviceCommand::CreateTextureView {
                    id: (old(device)@.next_id + 1) as u64,
                    texture: old(device)@.next_id,
                }
            }),
    {
        let ghost d0 = device@;
        let width = texture.width();
        let height = texture.height();
        let depth = texture.depth();
        let format = texture.format();
        let dimension = texture.dimension().storage_dimension();
        let mip_level_count = if texture.mipmaps() {
            max_mips(width, height, depth, dimension)
        } else {
            1
        };
        let id = device.allocate_id();
        device.submit(
            DeviceCommand::CreateTexture {
                id,
                desc: TextureDescriptor {
                    label: None,
                    width,
                    height,
                    depth_or_array_layers: depth,
                    mip_level_count,
                    sample_count: 1,
                    dimension,
                    format,
                    view_format: Some(format),
                    usage: texture.usage(),
                },
            },
        );
        let block = match format.block_copy_size() {
            Some(b) => b,
            None => 0,
        };
        let faces = texture.faces();
        let mut i: usize = 0;
        while i < faces.len()
            invariant
                faces_fit(texture),
                faces@ == texture.spec_faces(),
                i <= faces@.len(),
                width == texture.spec_width(),
                height == texture.spec_height(),
                block == block_bytes(texture.spec_format()),
                device@.next_id == d0.next_id + 1,
                device@.limits == d0.limits,
                id == d0.next_id,
                device@.commands.len() == d0.commands.len() + 1 + i,
                device@.commands.subrange(0, d0.commands.len() as int + 1) == d0.commands.push(
                    DeviceCommand::CreateTexture { id, desc: texture_descriptor(texture) },
                ),
                forall|j: int|
                    0 <= j < i ==> (#[trigger] device@.commands[d0.commands.len() + 1 + j]
                        matches DeviceCommand::WriteTexture {
                        id: tid,
                        layer,
                        data,
                        bytes_per_row,
                        rows_per_image,
                        width: w,
                        height: h,
                        depth: dp,
                    } && tid == id && layer == j && data@ == texture.spec_pixels().subrange(
                        faces@[j].start as int,
                        faces@[j].start + faces@[j].size,
                    ) && bytes_per_row == Some((block * width) as u32) && rows_per_image == Some(
                        ((block * width) / (height as int)) as u32,
                    ) && w == width && h == height && dp == 1),
            decreases faces@.len() - i,
        {
            let face = faces[i];
            proof {
                assert(texture.spec_faces()[i as int] == face);
            }
            let pixels = texture.pixels(face.start, face.start + face.size);
            let data = crate::bytes::prefix(pixels, pixels.len());
            let row = block * width;
            let ghost before = device@.commands;
            device.submit(
                DeviceCommand::WriteTexture {
                    id,
                    layer: i as u32,
                    data,
                    bytes_per_row: Some(row),
                    rows_per_image: Some(row / height),
                    width,
                    height,
                    depth: 1,
                },
            );
            proof {
                assert(data@ =~= pixels@);
                assert(device@.commands.subrange(0, d0.commands.len() as int + 1) =~= before.subrange(
                    0,
                    d0.commands.len() as int + 1,
                ));
                assert forall|j: int| 0 <= j < i implies #[trigger] device@.commands[d0.commands.len() + 1 + j]
                    == before[d0.commands.len() + 1 + j] by {}
            }
            i = i + 1;
        }
        let view = device.allocate_id();
        let ghost before = device@.commands;
        device.submit(DeviceCommand::CreateTextureView { id: view, texture: id });
        proof {
            let n = d0.commands.len() as int;
            assert(device@.commands.subrange(0, n) =~= d0.commands) by {
                assert(before.subrange(0, n + 1).subrange(0, n) =~= d0.commands);
            }
            assert(device@.commands[n] == before.subrange(0, n + 1)[n]);
            assert forall|j: int| 0 <= j < faces@.len() implies #[trigger] device@.commands[n + 1 + j]
                == before[n + 1 + j] by {}
        }
        RenderTexture { texture: Some(id), view }
    }

    /// Creates a texture as `desc` describes and a view of it; the pixels are
    /// written (all at once, with rows of `block * width` bytes where the
    /// format has blocks) when there are at least `width * height` bytes.
    pub fn from_desc(device: &mut RenderDevice, desc: &TextureDesc) -> (r: RenderTexture)
        requires
            old(device)@.next_id + 2 <= u64::MAX,
            desc.width * desc.height <= usize::MAX,
            block_bytes(desc.format) * desc.width <= u32::MAX,
        ensures
            r.spec_texture() == Some(old(device)@.next_id),
            r.spec_view() == old(device)@.next_id + 1,
            final(device)@.next_id == old(device)@.next_id + 2,
            final(device)@.limits == old(device)@.limits,
            ({
                let n = old(device)@.commands.len() as int;
                let c = final(device)@.commands;
                let writes = desc.pixels@.len() >= desc.width * desc.height;
                let k = if writes {
                    1int
                } else {
                    0int
                };
                &&& c.len() == n + 2 + k
                &&& c.subrange(0, n) == old(device)@.commands
                &&& c[n] matches DeviceCommand::CreateTexture { id, desc: d } && id == old(device)@.next_id
                    && d.label == desc.label && d.width == desc.width && d.height == desc.height
                    && d.depth_or_array_layers == desc.depth && d.mip_level_count == (if desc.mipmaps {
                    spec_max_mips(desc.width, desc.height, desc.depth, spec_storage_dimension(desc.dimension)) as u32
                } else {
                    1u32
                }) && d.sample_count == 1 && d.dimension == spec_storage_dimension(desc.dimension) && d.format
                    == desc.format && d.view_format == Some(desc.format) && d.usage == desc.usage
                &&& writes ==> (c[n + 1] matches DeviceCommand::WriteTexture {
                    id,
                    layer,
                    data,
                    bytes_per_row,
                    rows_per_image,
                    width,
                    height,
                    depth,
                } && id == old(device)@.next_id && layer == 0 && data@ == desc.pixels@ && bytes_per_row == (
                match spec_block_copy_size(desc.format) {
                    Some(b) => Some((b * desc.width) as u32),
                    None => None,
                }) && rows_per_image is None && width == desc.width && height == desc.height && depth
                    == desc.depth)
                &&& c[n + 1 + k] == DeviceCommand::CreateTextureView {
                    id: (old(device)@.next_id + 1) as u64,
                    texture: old(device)@.next_id,
                }
            }),
    {
        let ghost d0 = device@;
        let dimension = desc.dimension.storage_dimension();
        let mip_level_count = if desc.mipmaps {
            max_mips(desc.width, desc.height, desc.depth, dimension)
        } else {
            1
        };
        let id = device.allocate_id();
        device.submit(
            DeviceCommand::CreateTexture {
                id,
                desc: TextureDescriptor {
                    label: crate::buffer::clone_label(&desc.label),
                    width: desc.width,
                    height: desc.height,
                    depth_or_array_layers: desc.depth,
                    mip_level_count,
                    sample_count: 1,
                    dimension,
                    format: desc.format,
                    view_format: Some(desc.format),
                    usage: desc.usage,
                },
            },
        );
        let ghost after_create = device@.commands;
        let area = desc.width as usize * desc.height as usize;
        if desc.pixels.len() >= area {
            let bytes_per_row = match desc.format.block_copy_size() {
                Some(b) => Some(b * desc.width),
                None => None,
            };
            let data = crate::bytes::prefix(desc.pixels.as_slice(), desc.pixels.len());
            assert(data@ =~= desc.pixels@);
            device.submit(
                DeviceCommand::WriteTexture {
                    id,
                    layer: 0,
                    data,
                    bytes_per_row,
                    rows_per_image: None,
                    width: desc.width,
                    height: desc.height,
                    depth: desc.depth,
                },
            );
        }
        let ghost before = device@.commands;
        let view = device.allocate_id();
        device.submit(DeviceCommand::CreateTextureView { id: view, texture: id });
        proof {
            let n = d0.commands.len() as int;
            assert(device@.commands.subrange(0, n) =~= d0.commands);
            assert(device@.commands[n] == after_create[n]);
            if desc.pixels@.len() >= desc.width * desc.height {
                assert(device@.commands[n + 1] == before[n + 1]);
            }
        }
        RenderTexture { texture: Some(id), view }
    }

    pub fn texture(&self) -> (r: Option<u64>)
        ensures
            r == self.spec_texture(),
    {
        self.texture
    }

    pub fn view(&self) -> (r: u64)
        ensures
            r == self.spec_view(),
    {
        self.view
    }
}

/// What a texture is created with, including its pixels.
pub struct TextureDesc {
    pub label: Label,
    pub width: u32,
    pub height: u32,
    pub depth: u32,
    pub mipmaps: bool,
    pub format: TextureFormat,
    pub dimension: TextureDimension,
    pub usage: TextureUsages,
    pub pixels: Vec<u8>,
}

/// A sampler on the device.
#[derive(Clone, Copy, PartialEq, Eq, Structural, Debug)]
pub struct Sampler {
    id: u64,
}

impl Sampler {
    pub closed spec fn spec_id(&self) -> u64 {
        self.id
    }

    /// Creates an unlabelled sampler as `desc` describes, the same address
    /// mode on all axes and the same filter for magnification, minification
    /// and mipmaps.
    pub fn create(device: &mut RenderDevice, desc: &SamplerDescriptor) -> (r: Sampler)
        requires
            old(device)@.next_id < u64::MAX,
        ensures
            r.spec_id() == old(device)@.next_id,
            crate::buffer::allocated_one(old(device)@, final(device)@),
            final(device)@.commands.last() == (DeviceCommand::CreateSampler {
                id: r.spec_id(),
                desc: SamplerDescriptor { label: None, ..*desc },
            }),
    {
        let id = device.allocate_id();
        device.submit(
            DeviceCommand::CreateSampler {
                id,
                desc: SamplerDescriptor {
                    label: None,
                    wrap_mode: desc.wrap_mode,
                    filter_mode: desc.filter_mode,
                    compare: desc.compare,
                    anisotropy_clamp: desc.anisotropy_clamp,
                    border_color: desc.border_color,
                },
            },
        );
        Sampler { id }
    }

    /// The sampler made of an existing device sampler.
    pub fn from_id(id: u64) -> (r: Sampler)
        ensures
            r.spec_id() == id,
    {
        Sampler { id }
    }

    pub fn inner(&self) -> (r: u64)
        ensures
            r == self.spec_id(),
    {
        self.id
    }
}

/// Textures bound where a material has none, one per dimension, and the
/// sampler they share.
pub struct Fallbacks {
    pub d1: RenderTexture,
    pub d2_array: RenderTexture,
    pub d2: RenderTexture,
    pub d3: RenderTexture,
    pub cube: RenderTexture,
    pub cube_array: RenderTexture,
    pub sampler: Sampler,
}

impl Fallbacks {
    /// Creates the default sampler and the default texture of each dimension.
    pub fn new(device: &mut RenderDevice) -> (r: Fallbacks)
        requires
            old(device)@.next_id + 13 <= u64::MAX,
        ensures
            r.sampler.spec_id() == old(device)@.next_id,
            r.d1.spec_texture() == Some((old(device)@.next_id + 1) as u64),
            r.d2.spec_texture() == Some((old(device)@.next_id + 3) as u64),
            r.d2_array.spec_texture() == Some((old(device)@.next_id + 5) as u64),
            r.d3.spec_texture() == Some((old(device)@.next_id + 7) as u64),
            r.cube.spec_texture() == Some((old(device)@.next_id + 9) as u64),
            r.cube_array.spec_texture() == Some((old(device)@.next_id + 11) as u64),
            final(device)@.next_id == old(device)@.next_id + 13,
            final(device)@.limits == old(device)@.limits,
    {
        let sampler = Sampler::create(device, &SamplerDescriptor::default());
        let d1 = RenderTexture::create(device, &Texture1d::default());
        let d2 = RenderTexture::create(device, &Texture2d::default());
        let d2_array = RenderTexture::create(device, &Texture2dArray::default());
        let d3 = RenderTexture::create(device, &Texture3d::default());
        let cube = RenderTexture::create(device, &TextureCube::default());
        let cube_array = RenderTexture::create(device, &TextureCubeArray::default());
        Fallbacks { d1, d2_array, d2, d3, cube, cube_array, sampler }
    }

    /// The fallback texture of a dimension.
    pub fn texture(&self, dimension: TextureDimension) -> (r: &RenderTexture)
        ensures
            *r == match dimension {
                TextureDimension::D1 => self.d1,
                TextureDimension::D2 => self.d2,
                TextureDimension::D3 => self.d3,
                TextureDimension::Cube => self.cube,
                TextureDimension::D2Array => self.d2_array,
                TextureDimension::CubeArray => self.cube_array,
            },
    {
        match dimension {
            TextureDimension::D1 => &self.d1,
            TextureDimension::D2 => &self.d2,
            TextureDimension::D3 => &self.d3,
            TextureDimension::Cube => &self.cube,
            TextureDimension::D2Array => &self.d2_array,
            TextureDimension::CubeArray => &self.cube_array,
        }
    }
}

} // verus!
