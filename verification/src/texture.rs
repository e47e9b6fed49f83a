use crate::device::{DeviceCommand, Label, RenderDevice};
use crate::flags::TextureUsages;
use vstd::prelude::*;

verus! {

/// The pixel formats the renderer uses.
#[derive(Clone, Copy, PartialEq, Eq, Structural, Debug)]
pub enum TextureFormat {
    R8Unorm,
    Rg8Unorm,
    R32Float,
    Rgba8Unorm,
    Rgba8UnormSrgb,
    Bgra8Unorm,
    Bgra8UnormSrgb,
    Rgba16Float,
    Rgba32Float,
    Depth16Unorm,
    Depth24Plus,
    Depth24PlusStencil8,
    Depth32Float,
}

/// Bytes per block when the whole texture is copied, where one block is copyable.
pub open spec fn spec_block_copy_size(format: TextureFormat) -> Option<u32> {
    match format {
        TextureFormat::R8Unorm => Some(1),
        TextureFormat::Rg8Unorm => Some(2),
        TextureFormat::R32Float => Some(4),
        TextureFormat::Rgba8Unorm => Some(4),
        TextureFormat::Rgba8UnormSrgb => Some(4),
        TextureFormat::Bgra8Unorm => Some(4),
        TextureFormat::Bgra8UnormSrgb => Some(4),
        TextureFormat::Rgba16Float => Some(8),
        TextureFormat::Rgba32Float => Some(16),
        TextureFormat::Depth16Unorm => Some(2),
        TextureFormat::Depth24Plus => None,
        TextureFormat::Depth24PlusStencil8 => None,
        TextureFormat::Depth32Float => Some(4),
    }
}

impl TextureFormat {
    /// Bytes per block when all aspects are copied; `None` where the format has none.
    pub fn block_copy_size(&self) -> (r: Option<u32>)
        ensures
            r == spec_block_copy_size(*self),
    {
        match self {
            TextureFormat::R8Unorm => Some(1),
            TextureFormat::Rg8Unorm => Some(2),
            TextureFormat::R32Float => Some(4),
            TextureFormat::Rgba8Unorm => Some(4),
            TextureFormat::Rgba8UnormSrgb => Some(4),
            TextureFormat::Bgra8Unorm => Some(4),
            TextureFormat::Bgra8UnormSrgb => Some(4),
            TextureFormat::Rgba16Float => Some(8),
            TextureFormat::Rgba32Float => Some(16),
            TextureFormat::Depth16Unorm => Some(2),
            TextureFormat::Depth24Plus => None,
            TextureFormat::Depth24PlusStencil8 => None,
            TextureFormat::Depth32Float => Some(4),
        }
    }

    /// Whether the format stores colour in sRGB encoding.
    pub fn is_srgb(&self) -> (r: bool)
        ensures
            r == (*self == TextureFormat::Rgba8UnormSrgb || *self == TextureFormat::Bgra8UnormSrgb),
    {
        match self {
            TextureFormat::Rgba8UnormSrgb => true,
            TextureFormat::Bgra8UnormSrgb => true,
            _ => false,
        }
    }
}

/// How a texture is laid out, as the renderer names it.
#[derive(Clone, Copy, PartialEq, Eq, Structural, Debug)]
pub enum TextureDimension {
    D1,
    D2,
    D2Array,
    D3,
    Cube,
    CubeArray,
}

/// The storage dimension of a GPU texture.
#[derive(Clone, Copy, PartialEq, Eq, Structural, Debug)]
pub enum StorageDimension {
    D1,
    D2,
    D3,
}

/// The storage dimension a texture of this dimension is created with.
pub open spec fn spec_storage_dimension(dimension: TextureDimension) -> StorageDimension {
    match dimension {
        TextureDimension::D1 => StorageDimension::D1,
        TextureDimension::D3 => StorageDimension::D3,
        _ => StorageDimension::D2,
    }
}

impl TextureDimension {
    /// The storage dimension: layered and cube textures are stored as 2D layers.
    pub fn storage_dimension(self) -> (r: StorageDimension)
        ensures
            r == spec_storage_dimension(self),
    {
        match self {
            TextureDimension::D1 => StorageDimension::D1,
            TextureDimension::D3 => StorageDimension::D3,
            _ => StorageDimension::D2,
        }
    }
}

/// How a texture is filtered when sampled.
#[derive(Clone, Copy, PartialEq, Eq, Structural, Debug)]
pub enum FilterMode {
    Nearest,
    Linear,
}

/// What sampling outside the texture returns.
#[derive(Clone, Copy, PartialEq, Eq, Structural, Debug)]
pub enum WrapMode {
    Repeat,
    ClampToEdge,
    ClampToBorder,
    MirrorRepeat,
}

/// The colour a sampler returns outside the texture under `ClampToBorder`.
#[derive(Clone, Copy, PartialEq, Eq, Structural, Debug)]
pub enum SamplerBorderColor {
    TransparentBlack,
    OpaqueBlack,
    OpaqueWhite,
    Zero,
}

/// How a comparison sampler compares.
#[derive(Clone, Copy, PartialEq, Eq, Structural, Debug)]
pub enum CompareFunction {
    Never,
    Less,
    Equal,
    LessEqual,
    Greater,
    NotEqual,
    GreaterEqual,
    Always,
}

/// The bytes of one layer of a texture's pixels.
#[derive(Clone, Copy, PartialEq, Eq, Structural, Debug)]
pub struct TextureFace {
    pub start: usize,
    pub size: usize,
}

impl TextureFace {
    pub fn new(start: usize, size: usize) -> (r: TextureFace)
        ensures
            r == (TextureFace { start, size }),
    {
        TextureFace { start, size }
    }
}

/// What a texture is created with.
#[derive(Clone, PartialEq, Eq, Debug)]
pub struct TextureDescriptor {
    pub label: Label,
    pub width: u32,
    pub height: u32,
    pub depth_or_array_layers: u32,
    pub mip_level_count: u32,
    pub sample_count: u32,
    pub dimension: StorageDimension,
    pub format: TextureFormat,
    /// The format views of the texture may take (wgpu's `view_formats`):
    /// here, when given, the texture's own.
    pub view_format: Option<TextureFormat>,
    pub usage: TextureUsages,
}

/// What a sampler is created with (its level-of-detail clamps are the device defaults).
#[derive(Clone, PartialEq, Eq, Debug)]
pub struct SamplerDescriptor {
    pub label: Label,
    pub wrap_mode: WrapMode,
    pub filter_mode: FilterMode,
    pub compare: Option<CompareFunction>,
    pub anisotropy_clamp: u16,
    pub border_color: Option<SamplerBorderColor>,
}

impl SamplerDescriptor {
    /// Clamped to the edge, linearly filtered, no comparison, no anisotropy.
    pub fn default() -> (r: SamplerDescriptor)
        ensures
            r == (SamplerDescriptor {
                label: None,
                wrap_mode: WrapMode::ClampToEdge,
                filter_mode: FilterMode::Linear,
                compare: None,
                anisotropy_clamp: 1,
                border_color: None,
            }),
    {
        SamplerDescriptor {
            label: None,
            wrap_mode: WrapMode::ClampToEdge,
            filter_mode: FilterMode::Linear,
            compare: None,
            anisotropy_clamp: 1,
            border_color: None,
        }
    }
}

/// Number of bits needed to write `x`: 0 for 0, else floor(log2 x) + 1.
pub open spec fn bit_length(x: nat) -> nat
    decreases x,
{
    if x == 0 {
        0
    } else {
        1 + bit_length(x / 2)
    }
}

proof fn lemma_bit_length_below(x: nat, n: nat)
    requires
        x < vstd::arithmetic::power2::pow2(n),
    ensures
        bit_length(x) <= n,
    decreases x,
{
    if x > 0 {
        if n == 0 {
            vstd::arithmetic::power2::lemma_pow2(0);
            vstd::arithmetic::power::lemma_pow0(2);
        } else {
            vstd::arithmetic::power2::lemma_pow2_unfold(n);
            lemma_bit_length_below(x / 2, (n - 1) as nat);
        }
    }
}

/// Number of bits needed to write `x`.
pub fn bits_needed(x: u32) -> (r: u32)
    ensures
        r == bit_length(x as nat),
{
    let mut v: u32 = x;
    let mut n: u32 = 0;
    proof {
        vstd::arithmetic::power2::lemma2_to64();
        lemma_bit_length_below(x as nat, 32);
    }
    while v > 0
        invariant
            n + bit_length(v as nat) == bit_length(x as nat),
            bit_length(x as nat) <= 32,
        decreases v,
    {
        v = v / 2;
        n = n + 1;
    }
    n
}

/// Mip levels of a full chain for this extent and storage dimension.
pub open spec fn spec_max_mips(width: u32, height: u32, depth: u32, dimension: StorageDimension) -> nat {
    match dimension {
        StorageDimension::D1 => 1,
        StorageDimension::D2 => bit_length(vstd::math::max(width as int, height as int) as nat),
        StorageDimension::D3 => bit_length(
            vstd::math::max(width as int, vstd::math::max(height as int, depth as int)) as nat,
        ),
    }
}

/// Mip levels of a full chain for this extent and storage dimension.
pub fn max_mips(width: u32, height: u32, depth: u32, dimension: StorageDimension) -> (r: u32)
    ensures
        r == spec_max_mips(width, height, depth, dimension),
{
    match dimension {
        StorageDimension::D1 => 1,
        StorageDimension::D2 => {
            let m = if width >= height { width } else { height };
            bits_needed(m)
        },
        StorageDimension::D3 => {
            let hd = if height >= depth { height } else { depth };
            let m = if width >= hd { width } else { hd };
            bits_needed(m)
        },
    }
}


/// A CPU-side texture whose pixels can be uploaded to the device.
pub trait Texture {
    spec fn spec_width(&self) -> u32;

    spec fn spec_height(&self) -> u32;

    spec fn spec_depth(&self) -> u32;

    spec fn spec_format(&self) -> TextureFormat;

    spec fn spec_dimension(&self) -> TextureDimension;

    spec fn spec_filter_mode(&self) -> FilterMode;

    spec fn spec_wrap_mode(&self) -> WrapMode;

    spec fn spec_mipmaps(&self) -> bool;

    spec fn spec_usage(&self) -> TextureUsages;

    spec fn spec_faces(&self) -> Seq<TextureFace>;

    spec fn spec_pixels(&self) -> Seq<u8>;

    fn width(&self) -> (r: u32)
        ensures
            r == self.spec_width(),
    ;

    fn height(&self) -> (r: u32)
        ensures
            r == self.spec_height(),
    ;

    fn depth(&self) -> (r: u32)
        ensures
            r == self.spec_depth(),
    ;

    fn format(&self) -> (r: TextureFormat)
        ensures
            r == self.spec_format(),
    ;

    fn dimension(&self) -> (r: TextureDimension)
        ensures
            r == self.spec_dimension(),
    ;

    fn filter_mode(&self) -> (r: FilterMode)
        ensures
            r == self.spec_filter_mode(),
    ;

    fn wrap_mode(&self) -> (r: WrapMode)
        ensures
            r == self.spec_wrap_mode(),
    ;

    fn mipmaps(&self) -> (r: bool)
        ensures
            r == self.spec_mipmaps(),
    ;

    fn usage(&self) -> (r: TextureUsages)
        ensures
            r == self.spec_usage(),
    ;

    /// The layers of the pixel data.
    fn faces(&self) -> (r: &[TextureFace])
        ensures
            r@ == self.spec_faces(),
    ;

    /// The pixel bytes in `start..end`.
    fn pixels(&self, start: usize, end: usize) -> (r: &[u8])
        requires
            start <= end <= self.spec_pixels().len(),
        ensures
            r@ == self.spec_pixels().subrange(start as int, end as int),
    ;
}

/// Whether a texture can be uploaded layer by layer: every layer lies within
/// its pixels, the layers can be counted in 32 bits, a texture with layers
/// has rows, and a row's bytes fit in 32 bits.
pub open spec fn faces_fit<T: Texture>(t: &T) -> bool {
    &&& forall|i: int|
        0 <= i < t.spec_faces().len() ==> #[trigger] t.spec_faces()[i].start + t.spec_faces()[i].size
            <= t.spec_pixels().len()
    &&& t.spec_faces().len() <= u32::MAX
    &&& t.spec_pixels().len() <= usize::MAX
    &&& t.spec_faces().len() > 0 ==> t.spec_height() > 0
    &&& spec_block_copy_size(t.spec_format()) matches Some(b) ==> b * t.spec_width() <= u32::MAX
}

/// `count` copies of a four-byte pixel, one after the other.
pub open spec fn spec_repeat_pixel(pixel: Seq<u8>, count: nat) -> Seq<u8> {
    Seq::new(4 * count, |i: int| pixel[i % 4])
}

/// `count` copies of a four-byte pixel, one after the other.
pub fn repeat_pixel(pixel: [u8; 4], count: usize) -> (r: Vec<u8>)
    requires
        4 * count <= usize::MAX,
    ensures
        r@ == spec_repeat_pixel(pixel@, count as nat),
{
    let mut out: Vec<u8> = Vec::new();
    let mut i: usize = 0;
    while i < count
        invariant
            i <= count,
            4 * count <= usize::MAX,
            out@ =~= spec_repeat_pixel(pixel@, i as nat),
        decreases count - i,
    {
        out.push(pixel[0]);
        out.push(pixel[1]);
        out.push(pixel[2]);
        out.push(pixel[3]);
        i = i + 1;
        assert(out@ =~= spec_repeat_pixel(pixel@, i as nat));
    }
    out
}

/// A two-dimensional texture with one layer.
pub struct Texture2d {
    width: u32,
    height: u32,
    format: TextureFormat,
    filter_mode: FilterMode,
    wrap_mode: WrapMode,
    mipmaps: bool,
    pixels: Vec<u8>,
    faces: Vec<TextureFace>,
}

impl Texture2d {
    /// A texture whose one layer covers all of `pixels`.
    pub fn new(
        width: u32,
        height: u32,
        format: TextureFormat,
        filter_mode: FilterMode,
        wrap_mode: WrapMode,
        mipmaps: bool,
        pixels: Vec<u8>,
    ) -> (r: Texture2d)
        ensures
            r.spec_width() == width,
            r.spec_height() == height,
            r.spec_format() == format,
            r.spec_filter_mode() == filter_mode,
            r.spec_wrap_mode() == wrap_mode,
            r.spec_mipmaps() == mipmaps,
            r.spec_pixels() == pixels@,
            r.spec_faces() == seq![TextureFace { start: 0, size: pixels@.len() as usize }],
    {
        let mut faces = Vec::new();
        faces.push(TextureFace::new(0, pixels.len()));
        Texture2d { width, height, format, filter_mode, wrap_mode, mipmaps, pixels, faces }
    }

    /// A `width` by `height` texture of one RGBA colour, linearly filtered and clamped.
    pub fn color(width: u32, height: u32, pixel: [u8; 4]) -> (r: Texture2d)
        requires
            width * height <= u32::MAX,
            4 * (width * height) <= usize::MAX,
        ensures
            r.spec_width() == width,
            r.spec_height() == height,
            r.spec_format() == TextureFormat::Rgba8Unorm,
            r.spec_filter_mode() == FilterMode::Linear,
            r.spec_wrap_mode() == WrapMode::ClampToEdge,
            !r.spec_mipmaps(),
            r.spec_pixels() == spec_repeat_pixel(pixel@, (width * height) as nat),
            r.spec_faces() == seq![TextureFace { start: 0, size: (4 * (width * height)) as usize }],
    {
        let count = (width * height) as usize;
        let pixels = repeat_pixel(pixel, count);
        Texture2d::new(width, height, TextureFormat::Rgba8Unorm, FilterMode::Linear, WrapMode::ClampToEdge, false, pixels)
    }

    /// A single-colour texture, white.
    pub fn white(width: u32, height: u32) -> (r: Texture2d)
        requires
            width * height <= u32::MAX,
            4 * (width * height) <= usize::MAX,
        ensures
            r.spec_filter_mode() == FilterMode::Linear,
            r.spec_wrap_mode() == WrapMode::ClampToEdge,
            !r.spec_mipmaps(),
            r.spec_width() == width,
            r.spec_height() == height,
            r.spec_format() == TextureFormat::Rgba8Unorm,
            r.spec_pixels() == spec_repeat_pixel(seq![255u8, 255, 255, 255], (width * height) as nat),
            r.spec_faces() == seq![TextureFace { start: 0, size: (4 * (width * height)) as usize }],
    {
        let r = Texture2d::color(width, height, [255u8, 255, 255, 255]);
        assert([255u8, 255, 255, 255]@ =~= seq![255u8, 255, 255, 255]);
        r
    }

    /// A single-colour texture, black.
    pub fn black(width: u32, height: u32) -> (r: Texture2d)
        requires
            width * height <= u32::MAX,
            4 * (width * height) <= usize::MAX,
        ensures
            r.spec_filter_mode() == FilterMode::Linear,
            r.spec_wrap_mode() == WrapMode::ClampToEdge,
            !r.spec_mipmaps(),
            r.spec_width() == width,
            r.spec_height() == height,
            r.spec_format() == TextureFormat::Rgba8Unorm,
            r.spec_pixels() == spec_repeat_pixel(seq![0u8, 0, 0, 255], (width * height) as nat),
    {
        let r = Texture2d::color(width, height, [0u8, 0, 0, 255]);
        assert([0u8, 0, 0, 255]@ =~= seq![0u8, 0, 0, 255]);
        r
    }

    /// A single-colour texture, gray.
    pub fn gray(width: u32, height: u32) -> (r: Texture2d)
        requires
            width * height <= u32::MAX,
            4 * (width * height) <= usize::MAX,
        ensures
            r.spec_filter_mode() == FilterMode::Linear,
            r.spec_wrap_mode() == WrapMode::ClampToEdge,
            !r.spec_mipmaps(),
            r.spec_width() == width,
            r.spec_height() == height,
            r.spec_format() == TextureFormat::Rgba8Unorm,
            r.spec_pixels() == spec_repeat_pixel(seq![128u8, 128, 128, 255], (width * height) as nat),
    {
        let r = Texture2d::color(width, height, [128u8, 128, 128, 255]);
        assert([128u8, 128, 128, 255]@ =~= seq![128u8, 128, 128, 255]);
        r
    }

    /// A single-colour texture, red.
    pub fn red(width: u32, height: u32) -> (r: Texture2d)
        requires
            width * height <= u32::MAX,
            4 * (width * height) <= usize::MAX,
        ensures
            r.spec_filter_mode() == FilterMode::Linear,
            r.spec_wrap_mode() == WrapMode::ClampToEdge,
            !r.spec_mipmaps(),
            r.spec_width() == width,
            r.spec_height() == height,
            r.spec_format() == TextureFormat::Rgba8Unorm,
            r.spec_pixels() == spec_repeat_pixel(seq![255u8, 0, 0, 255], (width * height) as nat),
    {
        let r = Texture2d::color(width, height, [255u8, 0, 0, 255]);
        assert([255u8, 0, 0, 255]@ =~= seq![255u8, 0, 0, 255]);
        r
    }

    /// A single-colour texture, green.
    pub fn green(width: u32, height: u32) -> (r: Texture2d)
        requires
            width * height <= u32::MAX,
            4 * (width * height) <= usize::MAX,
        ensures
            r.spec_filter_mode() == FilterMode::Linear,
            r.spec_wrap_mode() == WrapMode::ClampToEdge,
            !r.spec_mipmaps(),
            r.spec_width() == width,
            r.spec_height() == height,
            r.spec_format() == TextureFormat::Rgba8Unorm,
            r.spec_pixels() == spec_repeat_pixel(seq![0u8, 255, 0, 255], (width * height) as nat),
    {
        let r = Texture2d::color(width, height, [0u8, 255, 0, 255]);
        assert([0u8, 255, 0, 255]@ =~= seq![0u8, 255, 0, 255]);
        r
    }

    /// A single-colour texture, blue.
    pub fn blue(width: u32, height: u32) -> (r: Texture2d)
        requires
            width * height <= u32::MAX,
            4 * (width * height) <= usize::MAX,
        ensures
            r.spec_filter_mode() == FilterMode::Linear,
            r.spec_wrap_mode() == WrapMode::ClampToEdge,
            !r.spec_mipmaps(),
            r.spec_width() == width,
            r.spec_height() == height,
            r.spec_format() == TextureFormat::Rgba8Unorm,
            r.spec_pixels() == spec_repeat_pixel(seq![0u8, 0, 255, 255], (width * height) as nat),
    {
        let r = Texture2d::color(width, height, [0u8, 0, 255, 255]);
        assert([0u8, 0, 255, 255]@ =~= seq![0u8, 0, 255, 255]);
        r
    }

    /// A one-pixel white texture.
    pub fn default() -> (r: Texture2d)
        ensures
            faces_fit(&r),
            r.spec_width() == 1,
            r.spec_height() == 1,
            r.spec_format() == TextureFormat::Rgba8Unorm,
            r.spec_filter_mode() == FilterMode::Linear,
            r.spec_wrap_mode() == WrapMode::ClampToEdge,
            !r.spec_mipmaps(),
            r.spec_pixels() == seq![255u8, 255, 255, 255],
            r.spec_faces() == seq![TextureFace { start: 0, size: 4 }],
    {
        let r = Texture2d::white(1, 1);
        assert(spec_repeat_pixel(seq![255u8, 255, 255, 255], 1) =~= seq![255u8, 255, 255, 255]);
        r
    }
}

/// The settings a two-dimensional texture is loaded with.
#[derive(Clone, Copy, PartialEq, Eq, Structural, Debug)]
pub struct Texture2dSettings {
    pub format: TextureFormat,
    pub filter_mode: FilterMode,
    pub wrap_mode: WrapMode,
    pub mipmaps: bool,
}

impl Texture2dSettings {
    /// RGBA8, linearly filtered, repeating, without mipmaps.
    pub fn default() -> (r: Texture2dSettings)
        ensures
            r == (Texture2dSettings {
                format: TextureFormat::Rgba8Unorm,
                filter_mode: FilterMode::Linear,
                wrap_mode: WrapMode::Repeat,
                mipmaps: false,
            }),
    {
        Texture2dSettings {
            format: TextureFormat::Rgba8Unorm,
            filter_mode: FilterMode::Linear,
            wrap_mode: WrapMode::Repeat,
            mipmaps: false,
        }
    }
}

/// A two-dimensional texture with several layers.
pub struct Texture2dArray {
    width: u32,
    height: u32,
    format: TextureFormat,
    filter_mode: FilterMode,
    wrap_mode: WrapMode,
    mipmaps: bool,
    pixels: Vec<u8>,
    faces: Vec<TextureFace>,
}

impl Texture2dArray {
    pub fn new(
        width: u32,
        height: u32,
        format: TextureFormat,
        filter_mode: FilterMode,
        wrap_mode: WrapMode,
        mipmaps: bool,
        faces: Vec<TextureFace>,
        pixels: Vec<u8>,
    ) -> (r: Texture2dArray)
        ensures
            r.spec_width() == width,
            r.spec_height() == height,
            r.spec_format() == format,
            r.spec_filter_mode() == filter_mode,
            r.spec_wrap_mode() == wrap_mode,
            r.spec_mipmaps() == mipmaps,
            r.spec_pixels() == pixels@,
            r.spec_faces() == faces@,
    {
        Texture2dArray { width, height, format, filter_mode, wrap_mode, mipmaps, pixels, faces }
    }

    /// `layers` layers that all show the same single-colour image.
    pub fn color(width: u32, height: u32, layers: u32, pixel: [u8; 4]) -> (r: Texture2dArray)
        requires
            width * height <= u32::MAX,
            4 * (width * height) <= usize::MAX,
        ensures
            r.spec_width() == width,
            r.spec_height() == height,
            r.spec_format() == TextureFormat::Rgba8Unorm,
            r.spec_filter_mode() == FilterMode::Linear,
            r.spec_wrap_mode() == WrapMode::ClampToEdge,
            !r.spec_mipmaps(),
            r.spec_pixels() == spec_repeat_pixel(pixel@, (width * height) as nat),
            r.spec_faces() == Seq::new(
                layers as nat,
                |i: int| TextureFace { start: 0, size: (4 * (width * height)) as usize },
            ),
    {
        let count = (width * height) as usize;
        let pixels = repeat_pixel(pixel, count);
        let face = TextureFace::new(0, pixels.len());
        let mut faces: Vec<TextureFace> = Vec::new();
        let mut i: u32 = 0;
        while i < layers
            invariant
                i <= layers,
                faces@ =~= Seq::new(i as nat, |j: int| face),
            decreases layers - i,
        {
            faces.push(face);
            i = i + 1;
            assert(faces@ =~= Seq::new(i as nat, |j: int| face));
        }
        Texture2dArray::new(
            width,
            height,
            TextureFormat::Rgba8Unorm,
            FilterMode::Linear,
            WrapMode::ClampToEdge,
            false,
            faces,
            pixels,
        )
    }

    /// Layers of one colour, white.
    pub fn white(width: u32, height: u32, layers: u32) -> (r: Texture2dArray)
        requires
            width * height <= u32::MAX,
            4 * (width * height) <= usize::MAX,
        ensures
            r.spec_filter_mode() == FilterMode::Linear,
            r.spec_wrap_mode() == WrapMode::ClampToEdge,
            !r.spec_mipmaps(),
            r.spec_width() == width,
            r.spec_height() == height,
            r.spec_faces().len() == layers,
            r.spec_format() == TextureFormat::Rgba8Unorm,
            r.spec_pixels() == spec_repeat_pixel(seq![255u8, 255, 255, 255], (width * height) as nat),
            r.spec_faces() == Seq::new(
                layers as nat,
                |i: int| TextureFace { start: 0, size: (4 * (width * height)) as usize },
            ),
    {
        let r = Texture2dArray::color(width, height, layers, [255u8, 255, 255, 255]);
        assert([255u8, 255, 255, 255]@ =~= seq![255u8, 255, 255, 255]);
        r
    }

    /// Layers of one colour, black.
    pub fn black(width: u32, height: u32, layers: u32) -> (r: Texture2dArray)
        requires
            width * height <= u32::MAX,
            4 * (width * height) <= usize::MAX,
        ensures
            r.spec_format() == TextureFormat::Rgba8Unorm,
            r.spec_filter_mode() == FilterMode::Linear,
            r.spec_wrap_mode() == WrapMode::ClampToEdge,
            !r.spec_mipmaps(),
            r.spec_width() == width,
            r.spec_height() == height,
            r.spec_faces().len() == layers,
            r.spec_pixels() == spec_repeat_pixel(seq![0u8, 0, 0, 255], (width * height) as nat),
    {
        let r = Texture2dArray::color(width, height, layers, [0u8, 0, 0, 255]);
        assert([0u8, 0, 0, 255]@ =~= seq![0u8, 0, 0, 255]);
        r
    }

    /// Layers of one colour, gray.
    pub fn gray(width: u32, height: u32, layers: u32) -> (r: Texture2dArray)
        requires
            width * height <= u32::MAX,
            4 * (width * height) <= usize::MAX,
        ensures
            r.spec_format() == TextureFormat::Rgba8Unorm,
            r.spec_filter_mode() == FilterMode::Linear,
            r.spec_wrap_mode() == WrapMode::ClampToEdge,
            !r.spec_mipmaps(),
            r.spec_width() == width,
            r.spec_height() == height,
            r.spec_faces().len() == layers,
            r.spec_pixels() == spec_repeat_pixel(seq![128u8, 128, 128, 255], (width * height) as nat),
    {
        let r = Texture2dArray::color(width, height, layers, [128u8, 128, 128, 255]);
        assert([128u8, 128, 128, 255]@ =~= seq![128u8, 128, 128, 255]);
        r
    }

    /// Layers of one colour, red.
    pub fn red(width: u32, height: u32, layers: u32) -> (r: Texture2dArray)
        requires
            width * height <= u32::MAX,
            4 * (width * height) <= usize::MAX,
        ensures
            r.spec_format() == TextureFormat::Rgba8Unorm,
            r.spec_filter_mode() == FilterMode::Linear,
            r.spec_wrap_mode() == WrapMode::ClampToEdge,
            !r.spec_mipmaps(),
            r.spec_width() == width,
            r.spec_height() == height,
            r.spec_faces().len() == layers,
            r.spec_pixels() == spec_repeat_pixel(seq![255u8, 0, 0, 255], (width * height) as nat),
    {
        let r = Texture2dArray::color(width, height, layers, [255u8, 0, 0, 255]);
        assert([255u8, 0, 0, 255]@ =~= seq![255u8, 0, 0, 255]);
        r
    }

    /// Layers of one colour, green.
    pub fn green(width: u32, height: u32, layers: u32) -> (r: Texture2dArray)
        requires
            width * height <= u32::MAX,
            4 * (width * height) <= usize::MAX,
        ensures
            r.spec_format() == TextureFormat::Rgba8Unorm,
            r.spec_filter_mode() == FilterMode::Linear,
            r.spec_wrap_mode() == WrapMode::ClampToEdge,
            !r.spec_mipmaps(),
            r.spec_width() == width,
            r.spec_height() == height,
            r.spec_faces().len() == layers,
            r.spec_pixels() == spec_repeat_pixel(seq![0u8, 255, 0, 255], (width * height) as nat),
    {
        let r = Texture2dArray::color(width, height, layers, [0u8, 255, 0, 255]);
        assert([0u8, 255, 0, 255]@ =~= seq![0u8, 255, 0, 255]);
        r
    }

    /// Layers of one colour, blue.
    pub fn blue(width: u32, height: u32, layers: u32) -> (r: Texture2dArray)
        requires
            width * height <= u32::MAX,
            4 * (width * height) <= usize::MAX,
        ensures
            r.spec_format() == TextureFormat::Rgba8Unorm,
            r.spec_filter_mode() == FilterMode::Linear,
            r.spec_wrap_mode() == WrapMode::ClampToEdge,
            !r.spec_mipmaps(),
            r.spec_width() == width,
            r.spec_height() == height,
            r.spec_faces().len() == layers,
            r.spec_pixels() == spec_repeat_pixel(seq![0u8, 0, 255, 255], (width * height) as nat),
    {
        let r = Texture2dArray::color(width, height, layers, [0u8, 0, 255, 255]);
        assert([0u8, 0, 255, 255]@ =~= seq![0u8, 0, 255, 255]);
        r
    }

    /// One white pixel in one layer.
    pub fn default() -> (r: Texture2dArray)
        ensures
            faces_fit(&r),
            r.spec_width() == 1,
            r.spec_height() == 1,
            r.spec_format() == TextureFormat::Rgba8Unorm,
            r.spec_filter_mode() == FilterMode::Linear,
            r.spec_wrap_mode() == WrapMode::ClampToEdge,
            !r.spec_mipmaps(),
            r.spec_pixels() == seq![255u8, 255, 255, 255],
            r.spec_faces() == seq![TextureFace { start: 0, size: 4 }],
    {
        let r = Texture2dArray::white(1, 1, 1);
        assert(spec_repeat_pixel(seq![255u8, 255, 255, 255], 1) =~= seq![255u8, 255, 255, 255]);
        assert(r.spec_faces() =~= seq![TextureFace { start: 0, size: 4 }]);
        r
    }
}

/// A three-dimensional texture.
pub struct Texture3d {
    width: u32,
    height: u32,
    depth: u32,
    format: TextureFormat,
    filter_mode: FilterMode,
    wrap_mode: WrapMode,
    mipmaps: bool,
    pixels: Vec<u8>,
    faces: Vec<TextureFace>,
}

impl Texture3d {
    pub fn new(
        width: u32,
        height: u32,
        depth: u32,
        format: TextureFormat,
        filter_mode: FilterMode,
        wrap_mode: WrapMode,
        mipmaps: bool,
        pixels: Vec<u8>,
    ) -> (r: Texture3d)
        ensures
            r.spec_width() == width,
            r.spec_height() == height,
            r.spec_depth() == depth,
            r.spec_format() == format,
            r.spec_filter_mode() == filter_mode,
            r.spec_wrap_mode() == wrap_mode,
            r.spec_mipmaps() == mipmaps,
            r.spec_pixels() == pixels@,
            r.spec_faces() == seq![TextureFace { start: 0, size: pixels@.len() as usize }],
    {
        let mut faces = Vec::new();
        faces.push(TextureFace::new(0, pixels.len()));
        Texture3d { width, height, depth, format, filter_mode, wrap_mode, mipmaps, pixels, faces }
    }

    /// One black, fully transparent RGBA8 texel.
    pub fn default() -> (r: Texture3d)
        ensures
            faces_fit(&r),
            r.spec_width() == 1 && r.spec_height() == 1 && r.spec_depth() == 1,
            r.spec_format() == TextureFormat::Rgba8Unorm,
            r.spec_filter_mode() == FilterMode::Linear,
            r.spec_wrap_mode() == WrapMode::ClampToEdge,
            !r.spec_mipmaps(),
            r.spec_pixels() == seq![0u8, 0, 0, 0],
    {
        let pixels = repeat_pixel([0u8, 0, 0, 0], 1);
        assert(pixels@ =~= seq![0u8, 0, 0, 0]);
        Texture3d::new(1, 1, 1, TextureFormat::Rgba8Unorm, FilterMode::Linear, WrapMode::ClampToEdge, false, pixels)
    }
}

/// A one-dimensional texture.
pub struct Texture1d {
    width: u32,
    format: TextureFormat,
    filter_mode: FilterMode,
    wrap_mode: WrapMode,
    mipmaps: bool,
    pixels: Vec<u8>,
    faces: Vec<TextureFace>,
}

impl Texture1d {
    pub fn new(
        width: u32,
        format: TextureFormat,
        filter_mode: FilterMode,
        wrap_mode: WrapMode,
        mipmaps: bool,
        pixels: Vec<u8>,
    ) -> (r: Texture1d)
        ensures
            r.spec_width() == width,
            r.spec_format() == format,
            r.spec_filter_mode() == filter_mode,
            r.spec_wrap_mode() == wrap_mode,
            r.spec_mipmaps() == mipmaps,
            r.spec_pixels() == pixels@,
            r.spec_faces() == seq![TextureFace { start: 0, size: pixels@.len() as usize }],
    {
        let mut faces = Vec::new();
        faces.push(TextureFace::new(0, pixels.len()));
        Texture1d { width, format, filter_mode, wrap_mode, mipmaps, pixels, faces }
    }

    /// One white RGBA8 texel.
    pub fn default() -> (r: Texture1d)
        ensures
            faces_fit(&r),
            r.spec_width() == 1,
            r.spec_format() == TextureFormat::Rgba8Unorm,
            r.spec_filter_mode() == FilterMode::Linear,
            r.spec_wrap_mode() == WrapMode::ClampToEdge,
            !r.spec_mipmaps(),
            r.spec_pixels() == seq![255u8, 255, 255, 255],
    {
        let pixels = repeat_pixel([255u8, 255, 255, 255], 1);
        assert(pixels@ =~= seq![255u8, 255, 255, 255]);
        Texture1d::new(1, TextureFormat::Rgba8Unorm, FilterMode::Linear, WrapMode::ClampToEdge, false, pixels)
    }
}

/// A cube texture: six square faces.
pub struct TextureCube {
    width: u32,
    height: u32,
    format: TextureFormat,
    filter_mode: FilterMode,
    wrap_mode: WrapMode,
    mipmaps: bool,
    faces: Vec<TextureFace>,
    pixels: Vec<u8>,
}

impl TextureCube {
    pub fn new(
        width: u32,
        height: u32,
        format: TextureFormat,
        filter_mode: FilterMode,
        wrap_mode: WrapMode,
        mipmaps: bool,
        faces: [TextureFace; 6],
        pixels: Vec<u8>,
    ) -> (r: TextureCube)
        ensures
            r.spec_width() == width,
            r.spec_height() == height,
            r.spec_format() == format,
            r.spec_filter_mode() == filter_mode,
            r.spec_wrap_mode() == wrap_mode,
            r.spec_mipmaps() == mipmaps,
            r.spec_pixels() == pixels@,
            r.spec_faces() == faces@,
    {
        let face_list = copy_faces(&faces);
        TextureCube { width, height, format, filter_mode, wrap_mode, mipmaps, faces: face_list, pixels }
    }

    /// The pixel bytes of face `face`.
    pub fn face(&self, face: usize) -> (r: &[u8])
        requires
            face < self.spec_faces().len(),
            self.spec_faces()[face as int].start + self.spec_faces()[face as int].size
                <= self.spec_pixels().len(),
        ensures
            r@ == self.spec_pixels().subrange(
                self.spec_faces()[face as int].start as int,
                self.spec_faces()[face as int].start + self.spec_faces()[face as int].size,
            ),
    {
        let f = self.faces[face];
        let _n = self.pixels.len();
        assert(self.spec_faces() == self.faces@);
        assert(self.spec_pixels() == self.pixels@);
        assert(f == self.faces@[face as int]);
        &self.pixels.as_slice()[f.start..f.start + f.size]
    }

    /// A one-texel cube whose six faces share one black, transparent texel.
    pub fn default() -> (r: TextureCube)
        ensures
            faces_fit(&r),
            r.spec_width() == 1 && r.spec_height() == 1,
            r.spec_format() == TextureFormat::Rgba8Unorm,
            r.spec_filter_mode() == FilterMode::Linear,
            r.spec_wrap_mode() == WrapMode::ClampToEdge,
            !r.spec_mipmaps(),
            r.spec_pixels() == seq![0u8, 0, 0, 0],
            r.spec_faces() == Seq::new(6, |i: int| TextureFace { start: 0, size: 4 }),
    {
        let f = TextureFace::new(0, 4);
        let pixels = repeat_pixel([0u8, 0, 0, 0], 1);
        assert(pixels@ =~= seq![0u8, 0, 0, 0]);
        let r = TextureCube::new(
            1,
            1,
            TextureFormat::Rgba8Unorm,
            FilterMode::Linear,
            WrapMode::ClampToEdge,
            false,
            [f, f, f, f, f, f],
            pixels,
        );
        assert([f, f, f, f, f, f]@ =~= Seq::new(6, |i: int| TextureFace { start: 0, size: 4 }));
        r
    }
}

/// The six faces of an array, in a vector.
pub fn copy_faces(faces: &[TextureFace; 6]) -> (r: Vec<TextureFace>)
    ensures
        r@ == faces@,
{
    let mut out = Vec::new();
    out.push(faces[0]);
    out.push(faces[1]);
    out.push(faces[2]);
    out.push(faces[3]);
    out.push(faces[4]);
    out.push(faces[5]);
    assert(out@ =~= faces@);
    out
}

/// The faces of all cubes, cube after cube.
pub open spec fn flatten_faces(cubes: Seq<[TextureFace; 6]>) -> Seq<TextureFace>
    decreases cubes.len(),
{
    if cubes.len() == 0 {
        Seq::empty()
    } else {
        flatten_faces(cubes.drop_last()) + cubes.last()@
    }
}

/// An array of cube textures.
pub struct TextureCubeArray {
    width: u32,
    height: u32,
    format: TextureFormat,
    filter_mode: FilterMode,
    wrap_mode: WrapMode,
    mipmaps: bool,
    faces: Vec<[TextureFace; 6]>,
    flat_faces: Vec<TextureFace>,
    layers: u32,
    pixels: Vec<u8>,
}

impl TextureCubeArray {
    pub closed spec fn spec_cubes(&self) -> Seq<[TextureFace; 6]> {
        self.faces@
    }

    pub fn new(
        width: u32,
        height: u32,
        format: TextureFormat,
        filter_mode: FilterMode,
        wrap_mode: WrapMode,
        mipmaps: bool,
        faces: Vec<[TextureFace; 6]>,
        pixels: Vec<u8>,
    ) -> (r: TextureCubeArray)
        requires
            faces@.len() * 6 <= u32::MAX,
        ensures
            r.spec_width() == width,
            r.spec_height() == height,
            r.spec_format() == format,
            r.spec_filter_mode() == filter_mode,
            r.spec_wrap_mode() == wrap_mode,
            r.spec_mipmaps() == mipmaps,
            r.spec_pixels() == pixels@,
            r.spec_cubes() == faces@,
            r.spec_faces() == flatten_faces(faces@),
            r.spec_depth() == faces@.len() * 6,
    {
        let mut flat: Vec<TextureFace> = Vec::new();
        let mut i: usize = 0;
        while i < faces.len()
            invariant
                i <= faces@.len(),
                flat@ == flatten_faces(faces@.subrange(0, i as int)),
            decreases faces@.len() - i,
        {
            let cube = copy_faces(&faces[i]);
            let mut j: usize = 0;
            let ghost before = flat@;
            while j < 6
                invariant
                    j <= 6,
                    cube@ == faces@[i as int]@,
                    flat@ == before + cube@.subrange(0, j as int),
                decreases 6 - j,
            {
                flat.push(cube[j]);
                j = j + 1;
                assert(flat@ =~= before + cube@.subrange(0, j as int));
            }
            proof {
                let s = faces@.subrange(0, i + 1);
                assert(s.drop_last() =~= faces@.subrange(0, i as int));
                assert(cube@.subrange(0, 6) =~= cube@);
            }
            i = i + 1;
        }
        assert(faces@.subrange(0, faces@.len() as int) =~= faces@);
        let layers = (faces.len() as u32) * 6;
        TextureCubeArray { width, height, format, filter_mode, wrap_mode, mipmaps, faces, flat_faces: flat, layers, pixels }
    }

    /// The pixel bytes of face `face` of cube `layer`.
    pub fn face(&self, layer: usize, face: usize) -> (r: &[u8])
        requires
            layer < self.spec_cubes().len(),
            face < 6,
            self.spec_cubes()[layer as int][face as int].start + self.spec_cubes()[layer as int][face as int].size
                <= self.spec_pixels().len(),
        ensures
            r@ == self.spec_pixels().subrange(
                self.spec_cubes()[layer as int][face as int].start as int,
                self.spec_cubes()[layer as int][face as int].start + self.spec_cubes()[layer as int][face as int].size,
            ),
    {
        let f = self.faces[layer][face];
        let _n = self.pixels.len();
        assert(self.spec_pixels() == self.pixels@);
        assert(f == self.faces@[layer as int][face as int]);
        &self.pixels.as_slice()[f.start..f.start + f.size]
    }

    /// One cube of one black, transparent texel.
    pub fn default() -> (r: TextureCubeArray)
        ensures
            faces_fit(&r),
            r.spec_width() == 1 && r.spec_height() == 1,
            r.spec_format() == TextureFormat::Rgba8Unorm,
            r.spec_filter_mode() == FilterMode::Linear,
            r.spec_wrap_mode() == WrapMode::ClampToEdge,
            !r.spec_mipmaps(),
            r.spec_cubes().len() == 1,
            forall|i: int| 0 <= i < 6 ==> (#[trigger] r.spec_cubes()[0][i]) == (TextureFace { start: 0, size: 4 }),
            r.spec_pixels() == seq![0u8, 0, 0, 0],
    {
        let f = TextureFace::new(0, 4);
        let mut cubes = Vec::new();
        cubes.push([f, f, f, f, f, f]);
        let pixels = repeat_pixel([0u8, 0, 0, 0], 1);
        assert(pixels@ =~= seq![0u8, 0, 0, 0]);
        proof {
            let arr = [f, f, f, f, f, f];
            assert(cubes@.last() == arr);
            assert(cubes@.drop_last() =~= Seq::<[TextureFace; 6]>::empty());
            assert(flatten_faces(cubes@.drop_last()) == Seq::<TextureFace>::empty());
            assert(flatten_faces(cubes@) == Seq::<TextureFace>::empty() + arr@);
            assert(Seq::<TextureFace>::empty() + arr@ =~= arr@);
            assert(forall|i: int| 0 <= i < 6 ==> arr@[i] == f);
        }
        TextureCubeArray::new(1, 1, TextureFormat::Rgba8Unorm, FilterMode::Linear, WrapMode::ClampToEdge, false, cubes, pixels)
    }
}

/// A texture that passes render into.
pub struct RenderTargetTexture {
    width: u32,
    height: u32,
    format: TextureFormat,
    depth_format: TextureFormat,
    filter_mode: FilterMode,
    wrap_mode: WrapMode,
    pixels: Vec<u8>,
    faces: Vec<TextureFace>,
    mipmaps: bool,
}

impl RenderTargetTexture {
    /// A target with no initial pixels.
    pub fn new(
        width: u32,
        height: u32,
        format: TextureFormat,
        depth_format: TextureFormat,
        filter_mode: FilterMode,
        wrap_mode: WrapMode,
    ) -> (r: RenderTargetTexture)
        ensures
            r.spec_width() == width,
            r.spec_height() == height,
            r.spec_format() == format,
            r.spec_depth_format() == depth_format,
            r.spec_filter_mode() == filter_mode,
            r.spec_wrap_mode() == wrap_mode,
            r.spec_pixels() == Seq::<u8>::empty(),
            r.spec_faces() == seq![TextureFace { start: 0, size: 0 }],
    {
        let mut faces = Vec::new();
        faces.push(TextureFace::new(0, 0));
        RenderTargetTexture {
            width,
            height,
            format,
            depth_format,
            filter_mode,
            wrap_mode,
            pixels: Vec::new(),
            faces,
            mipmaps: false,
        }
    }

    pub closed spec fn spec_depth_format(&self) -> TextureFormat {
        self.depth_format
    }

    /// The format of the depth attachment that goes with this target.
    pub fn depth_format(&self) -> (r: TextureFormat)
        ensures
            r == self.spec_depth_format(),
    {
        self.depth_format
    }
}

impl Texture for Texture2d {
    closed spec fn spec_width(&self) -> u32 {
        self.width
    }

    closed spec fn spec_height(&self) -> u32 {
        self.height
    }

    closed spec fn spec_depth(&self) -> u32 {
        1u32
    }

    closed spec fn spec_format(&self) -> TextureFormat {
        self.format
    }

    closed spec fn spec_dimension(&self) -> TextureDimension {
        TextureDimension::D2
    }

    closed spec fn spec_filter_mode(&self) -> FilterMode {
        self.filter_mode
    }

    closed spec fn spec_wrap_mode(&self) -> WrapMode {
        self.wrap_mode
    }

    closed spec fn spec_mipmaps(&self) -> bool {
        self.mipmaps
    }

    closed spec fn spec_usage(&self) -> TextureUsages {
        TextureUsages { bits: 7 }
    }

    closed spec fn spec_faces(&self) -> Seq<TextureFace> {
        self.faces@
    }

    closed spec fn spec_pixels(&self) -> Seq<u8> {
        self.pixels@
    }

    fn width(&self) -> (r: u32) {
        self.width
    }

    fn height(&self) -> (r: u32) {
        self.height
    }

    fn depth(&self) -> (r: u32) {
        1
    }

    fn format(&self) -> (r: TextureFormat) {
        self.format
    }

    fn dimension(&self) -> (r: TextureDimension) {
        TextureDimension::D2
    }

    fn filter_mode(&self) -> (r: FilterMode) {
        self.filter_mode
    }

    fn wrap_mode(&self) -> (r: WrapMode) {
        self.wrap_mode
    }

    fn mipmaps(&self) -> (r: bool) {
        self.mipmaps
    }

    fn usage(&self) -> (r: TextureUsages) {
        TextureUsages { bits: 7 }
    }

    fn faces(&self) -> (r: &[TextureFace]) {
        self.faces.as_slice()
    }

    fn pixels(&self, start: usize, end: usize) -> (r: &[u8]) {
        &self.pixels.as_slice()[start..end]
    }
}

impl Texture for Texture2dArray {
    closed spec fn spec_width(&self) -> u32 {
        self.width
    }

    closed spec fn spec_height(&self) -> u32 {
        self.height
    }

    closed spec fn spec_depth(&self) -> u32 {
        self.faces@.len() as u32
    }

    closed spec fn spec_format(&self) -> TextureFormat {
        self.format
    }

    closed spec fn spec_dimension(&self) -> TextureDimension {
        TextureDimension::D2Array
    }

    closed spec fn spec_filter_mode(&self) -> FilterMode {
        self.filter_mode
    }

    closed spec fn spec_wrap_mode(&self) -> WrapMode {
        self.wrap_mode
    }

    closed spec fn spec_mipmaps(&self) -> bool {
        self.mipmaps
    }

    closed spec fn spec_usage(&self) -> TextureUsages {
        TextureUsages { bits: 7 }
    }

    closed spec fn spec_faces(&self) -> Seq<TextureFace> {
        self.faces@
    }

    closed spec fn spec_pixels(&self) -> Seq<u8> {
        self.pixels@
    }

    fn width(&self) -> (r: u32) {
        self.width
    }

    fn height(&self) -> (r: u32) {
        self.height
    }

    fn depth(&self) -> (r: u32) {
        self.faces.len() as u32
    }

    fn format(&self) -> (r: TextureFormat) {
        self.format
    }

    fn dimension(&self) -> (r: TextureDimension) {
        TextureDimension::D2Array
    }

    fn filter_mode(&self) -> (r: FilterMode) {
        self.filter_mode
    }

    fn wrap_mode(&self) -> (r: WrapMode) {
        self.wrap_mode
    }

    fn mipmaps(&self) -> (r: bool) {
        self.mipmaps
    }

    fn usage(&self) -> (r: TextureUsages) {
        TextureUsages { bits: 7 }
    }

    fn faces(&self) -> (r: &[TextureFace]) {
        self.faces.as_slice()
    }

    fn pixels(&self, start: usize, end: usize) -> (r: &[u8]) {
        &self.pixels.as_slice()[start..end]
    }
}

impl Texture for Texture3d {
    closed spec fn spec_width(&self) -> u32 {
        self.width
    }

    closed spec fn spec_height(&self) -> u32 {
        self.height
    }

    closed spec fn spec_depth(&self) -> u32 {
        self.depth
    }

    closed spec fn spec_format(&self) -> TextureFormat {
        self.format
    }

    closed spec fn spec_dimension(&self) -> TextureDimension {
        TextureDimension::D3
    }

    closed spec fn spec_filter_mode(&self) -> FilterMode {
        self.filter_mode
    }

    closed spec fn spec_wrap_mode(&self) -> WrapMode {
        self.wrap_mode
    }

    closed spec fn spec_mipmaps(&self) -> bool {
        self.mipmaps
    }

    closed spec fn spec_usage(&self) -> TextureUsages {
        TextureUsages { bits: 7 }
    }

    closed spec fn spec_faces(&self) -> Seq<TextureFace> {
        self.faces@
    }

    closed spec fn spec_pixels(&self) -> Seq<u8> {
        self.pixels@
    }

    fn width(&self) -> (r: u32) {
        self.width
    }

    fn height(&self) -> (r: u32) {
        self.height
    }

    fn depth(&self) -> (r: u32) {
        self.depth
    }

    fn format(&self) -> (r: TextureFormat) {
        self.format
    }

    fn dimension(&self) -> (r: TextureDimension) {
        TextureDimension::D3
    }

    fn filter_mode(&self) -> (r: FilterMode) {
        self.filter_mode
    }

    fn wrap_mode(&self) -> (r: WrapMode) {
        self.wrap_mode
    }

    fn mipmaps(&self) -> (r: bool) {
        self.mipmaps
    }

    fn usage(&self) -> (r: TextureUsages) {
        TextureUsages { bits: 7 }
    }

    fn faces(&self) -> (r: &[TextureFace]) {
        self.faces.as_slice()
    }

    fn pixels(&self, start: usize, end: usize) -> (r: &[u8]) {
        &self.pixels.as_slice()[start..end]
    }
}

impl Texture for Texture1d {
    closed spec fn spec_width(&self) -> u32 {
        self.width
    }

    closed spec fn spec_height(&self) -> u32 {
        1u32
    }

    closed spec fn spec_depth(&self) -> u32 {
        1u32
    }

    closed spec fn spec_format(&self) -> TextureFormat {
        self.format
    }

    closed spec fn spec_dimension(&self) -> TextureDimension {
        TextureDimension::D1
    }

    closed spec fn spec_filter_mode(&self) -> FilterMode {
        self.filter_mode
    }

    closed spec fn spec_wrap_mode(&self) -> WrapMode {
        self.wrap_mode
    }

    closed spec fn spec_mipmaps(&self) -> bool {
        self.mipmaps
    }

    closed spec fn spec_usage(&self) -> TextureUsages {
        TextureUsages { bits: 7 }
    }

    closed spec fn spec_faces(&self) -> Seq<TextureFace> {
        self.faces@
    }

    closed spec fn spec_pixels(&self) -> Seq<u8> {
        self.pixels@
    }

    fn width(&self) -> (r: u32) {
        self.width
    }

    fn height(&self) -> (r: u32) {
        1
    }

    fn depth(&self) -> (r: u32) {
        1
    }

    fn format(&self) -> (r: TextureFormat) {
        self.format
    }

    fn dimension(&self) -> (r: TextureDimension) {
        TextureDimension::D1
    }

    fn filter_mode(&self) -> (r: FilterMode) {
        self.filter_mode
    }

    fn wrap_mode(&self) -> (r: WrapMode) {
        self.wrap_mode
    }

    fn mipmaps(&self) -> (r: bool) {
        self.mipmaps
    }

    fn usage(&self) -> (r: TextureUsages) {
        TextureUsages { bits: 7 }
    }

    fn faces(&self) -> (r: &[TextureFace]) {
        self.faces.as_slice()
    }

    fn pixels(&self, start: usize, end: usize) -> (r: &[u8]) {
        &self.pixels.as_slice()[start..end]
    }
}

impl Texture for TextureCube {
    closed spec fn spec_width(&self) -> u32 {
        self.width
    }

    closed spec fn spec_height(&self) -> u32 {
        self.height
    }

    closed spec fn spec_depth(&self) -> u32 {
        6u32
    }

    closed spec fn spec_format(&self) -> TextureFormat {
        self.format
    }

    closed spec fn spec_dimension(&self) -> TextureDimension {
        TextureDimension::Cube
    }

    closed spec fn spec_filter_mode(&self) -> FilterMode {
        self.filter_mode
    }

    closed spec fn spec_wrap_mode(&self) -> WrapMode {
        self.wrap_mode
    }

    closed spec fn spec_mipmaps(&self) -> bool {
        self.mipmaps
    }

    closed spec fn spec_usage(&self) -> TextureUsages {
        TextureUsages { bits: 3 }
    }

    closed spec fn spec_faces(&self) -> Seq<TextureFace> {
        self.faces@
    }

    closed spec fn spec_pixels(&self) -> Seq<u8> {
        self.pixels@
    }

    fn width(&self) -> (r: u32) {
        self.width
    }

    fn height(&self) -> (r: u32) {
        self.height
    }

    fn depth(&self) -> (r: u32) {
        6
    }

    fn format(&self) -> (r: TextureFormat) {
        self.format
    }

    fn dimension(&self) -> (r: TextureDimension) {
        TextureDimension::Cube
    }

    fn filter_mode(&self) -> (r: FilterMode) {
        self.filter_mode
    }

    fn wrap_mode(&self) -> (r: WrapMode) {
        self.wrap_mode
    }

    fn mipmaps(&self) -> (r: bool) {
        self.mipmaps
    }

    fn usage(&self) -> (r: TextureUsages) {
        TextureUsages { bits: 3 }
    }

    fn faces(&self) -> (r: &[TextureFace]) {
        self.faces.as_slice()
    }

    fn pixels(&self, start: usize, end: usize) -> (r: &[u8]) {
        &self.pixels.as_slice()[start..end]
    }
}

impl Texture for TextureCubeArray {
    closed spec fn spec_width(&self) -> u32 {
        self.width
    }

    closed spec fn spec_height(&self) -> u32 {
        self.height
    }

    closed spec fn spec_depth(&self) -> u32 {
        self.layers
    }

    closed spec fn spec_format(&self) -> TextureFormat {
        self.format
    }

    closed spec fn spec_dimension(&self) -> TextureDimension {
        TextureDimension::CubeArray
    }

    closed spec fn spec_filter_mode(&self) -> FilterMode {
        self.filter_mode
    }

    closed spec fn spec_wrap_mode(&self) -> WrapMode {
        self.wrap_mode
    }

    closed spec fn spec_mipmaps(&self) -> bool {
        self.mipmaps
    }

    closed spec fn spec_usage(&self) -> TextureUsages {
        TextureUsages { bits: 19 }
    }

    closed spec fn spec_faces(&self) -> Seq<TextureFace> {
        self.flat_faces@
    }

    closed spec fn spec_pixels(&self) -> Seq<u8> {
        self.pixels@
    }

    fn width(&self) -> (r: u32) {
        self.width
    }

    fn height(&self) -> (r: u32) {
        self.height
    }

    fn depth(&self) -> (r: u32) {
        self.layers
    }

    fn format(&self) -> (r: TextureFormat) {
        self.format
    }

    fn dimension(&self) -> (r: TextureDimension) {
        TextureDimension::CubeArray
    }

    fn filter_mode(&self) -> (r: FilterMode) {
        self.filter_mode
    }

    fn wrap_mode(&self) -> (r: WrapMode) {
        self.wrap_mode
    }

    fn mipmaps(&self) -> (r: bool) {
        self.mipmaps
    }

    fn usage(&self) -> (r: TextureUsages) {
        TextureUsages { bits: 19 }
    }

    fn faces(&self) -> (r: &[TextureFace]) {
        self.flat_faces.as_slice()
    }

    fn pixels(&self, start: usize, end: usize) -> (r: &[u8]) {
        &self.pixels.as_slice()[start..end]
    }
}

impl Texture for RenderTargetTexture {
    closed spec fn spec_width(&self) -> u32 {
        self.width
    }

    closed spec fn spec_height(&self) -> u32 {
        self.height
    }

    closed spec fn spec_depth(&self) -> u32 {
        1u32
    }

    closed spec fn spec_format(&self) -> TextureFormat {
        self.format
    }

    closed spec fn spec_dimension(&self) -> TextureDimension {
        TextureDimension::D2
    }

    closed spec fn spec_filter_mode(&self) -> FilterMode {
        self.filter_mode
    }

    closed spec fn spec_wrap_mode(&self) -> WrapMode {
        self.wrap_mode
    }

    closed spec fn spec_mipmaps(&self) -> bool {
        false
    }

    closed spec fn spec_usage(&self) -> TextureUsages {
        TextureUsages { bits: 20 }
    }

    closed spec fn spec_faces(&self) -> Seq<TextureFace> {
        self.faces@
    }

    closed spec fn spec_pixels(&self) -> Seq<u8> {
        self.pixels@
    }

    fn width(&self) -> (r: u32) {
        self.width
    }

    fn height(&self) -> (r: u32) {
        self.height
    }

    fn depth(&self) -> (r: u32) {
        1
    }

    fn format(&self) -> (r: TextureFormat) {
        self.format
    }

    fn dimension(&self) -> (r: TextureDimension) {
        TextureDimension::D2
    }

    fn filter_mode(&self) -> (r: FilterMode) {
        self.filter_mode
    }

    fn wrap_mode(&self) -> (r: WrapMode) {
        self.wrap_mode
    }

    fn mipmaps(&self) -> (r: bool) {
        false
    }

    fn usage(&self) -> (r: TextureUsages) {
        TextureUsages { bits: 20 }
    }

    fn faces(&self) -> (r: &[TextureFace]) {
        self.faces.as_slice()
    }

    fn pixels(&self, start: usize, end: usize) -> (r: &[u8]) {
        &self.pixels.as_slice()[start..end]
    }
}

/// A positive number has `bit_length` bits: it lies between the powers of
/// two just below and just above that length.
proof fn lemma_bit_length_bounds(x: nat)
    requires
        x > 0,
    ensures
        bit_length(x) >= 1,
        vstd::arithmetic::power2::pow2((bit_length(x) - 1) as nat) <= x,
        x < vstd::arithmetic::power2::pow2(bit_length(x)),
    decreases x,
{
    vstd::arithmetic::power2::lemma2_to64();
    if x > 1 {
        let h = x / 2;
        lemma_bit_length_bounds(h);
        let b = bit_length(h);
        assert(bit_length(x) == 1 + b);
        vstd::arithmetic::power2::lemma_pow2_unfold(b + 1);
        vstd::arithmetic::power2::lemma_pow2_unfold(b);
        assert(b >= 1);
        assert(vstd::arithmetic::power2::pow2(b) == 2 * vstd::arithmetic::power2::pow2((b - 1) as nat));
        assert(vstd::arithmetic::power2::pow2((b + 1) as nat) == 2 * vstd::arithmetic::power2::pow2(b));
    } else {
        assert(bit_length(0) == 0);
        assert(bit_length(1) == 1 + bit_length(0));
    }
}

/// A full mip chain of a 2D texture goes from its larger side down to one
/// texel: with `r` levels, both sides are below 2^r and the larger one is
/// at least 2^(r-1); an empty extent has no level.
pub proof fn lemma_max_mips_2d(width: u32, height: u32, depth: u32)
    ensures
        ({
            let r = spec_max_mips(width, height, depth, StorageDimension::D2);
            &&& (width == 0 && height == 0) <==> r == 0
            &&& r > 0 ==> width < vstd::arithmetic::power2::pow2(r) && height < vstd::arithmetic::power2::pow2(r)
            &&& r > 0 ==> (width >= vstd::arithmetic::power2::pow2((r - 1) as nat) || height
                >= vstd::arithmetic::power2::pow2((r - 1) as nat))
        }),
{
    let m = vstd::math::max(width as int, height as int) as nat;
    if m > 0 {
        lemma_bit_length_bounds(m);
    } else {
        assert(bit_length(0) == 0);
    }
}

/// A full mip chain of a 3D texture goes from its largest side down to one
/// texel: with `r` levels, every side is below 2^r and the largest is at
/// least 2^(r-1); an empty extent has no level.
pub proof fn lemma_max_mips_3d(width: u32, height: u32, depth: u32)
    ensures
        ({
            let r = spec_max_mips(width, height, depth, StorageDimension::D3);
            &&& (width == 0 && height == 0 && depth == 0) <==> r == 0
            &&& r > 0 ==> width < vstd::arithmetic::power2::pow2(r) && height < vstd::arithmetic::power2::pow2(r)
                && depth < vstd::arithmetic::power2::pow2(r)
            &&& r > 0 ==> (width >= vstd::arithmetic::power2::pow2((r - 1) as nat) || height
                >= vstd::arithmetic::power2::pow2((r - 1) as nat) || depth >= vstd::arithmetic::power2::pow2(
                (r - 1) as nat,
            ))
        }),
{
    let m = vstd::math::max(width as int, vstd::math::max(height as int, depth as int)) as nat;
    if m > 0 {
        lemma_bit_length_bounds(m);
    } else {
        assert(bit_length(0) == 0);
    }
}

} // verus!
