use crate::asset::ExtractError;
use crate::device::{DeviceCommand, RenderDevice};
use crate::flags::ShaderStages;
use crate::texture::{TextureDimension, TextureFormat};
use vstd::prelude::*;

verus! {

/// How a shader reads a buffer binding.
#[derive(Clone, Copy, PartialEq, Eq, Structural, Debug)]
pub enum BufferBindingType {
    Uniform,
    Storage { read_only: bool },
}

/// The component type a shader samples from a texture.
#[derive(Clone, Copy, PartialEq, Eq, Structural, Debug)]
pub enum TextureSampleType {
    Float { filterable: bool },
    Depth,
    Sint,
    Uint,
}

/// How a sampler binding may be used.
#[derive(Clone, Copy, PartialEq, Eq, Structural, Debug)]
pub enum SamplerBindingType {
    Filtering,
    NonFiltering,
    Comparison,
}

/// How a shader accesses a storage texture.
#[derive(Clone, Copy, PartialEq, Eq, Structural, Debug)]
pub enum StorageTextureAccess {
    WriteOnly,
    ReadOnly,
    ReadWrite,
}

/// The dimension of a texture view as a binding sees it.
#[derive(Clone, Copy, PartialEq, Eq, Structural, Debug)]
pub enum TextureViewDimension {
    D1,
    D2,
    D2Array,
    Cube,
    CubeArray,
    D3,
}

/// The kind of resource a binding slot of a layout holds.
#[derive(Clone, Copy, PartialEq, Eq, Structural, Debug)]
pub enum BindingType {
    Buffer { ty: BufferBindingType, has_dynamic_offset: bool, min_binding_size: Option<u64> },
    Sampler(SamplerBindingType),
    Texture { sample_type: TextureSampleType, view_dimension: TextureViewDimension, multisampled: bool },
    StorageTexture { access: StorageTextureAccess, format: TextureFormat, view_dimension: TextureViewDimension },
}

/// One slot of a bind group layout.
#[derive(Clone, Copy, PartialEq, Eq, Structural, Debug)]
pub struct BindGroupLayoutEntry {
    pub binding: u32,
    pub visibility: ShaderStages,
    pub ty: BindingType,
    pub count: Option<u32>,
}

/// A resource bound to one slot of a bind group, named by its object id.
#[derive(Clone, Copy, PartialEq, Eq, Structural, Debug)]
pub enum BindingResource {
    Buffer { id: u64, offset: u64, size: Option<u64> },
    TextureView { id: u64 },
    Sampler { id: u64 },
}

/// One slot of a bind group.
#[derive(Clone, Copy, PartialEq, Eq, Structural, Debug)]
pub struct BindGroupEntry {
    pub binding: u32,
    pub resource: BindingResource,
}

/// The view dimension a binding of a texture of this dimension uses.
pub open spec fn spec_view_dimension(dimension: TextureDimension) -> TextureViewDimension {
    match dimension {
        TextureDimension::D1 => TextureViewDimension::D1,
        TextureDimension::D2 => TextureViewDimension::D2,
        TextureDimension::D2Array => TextureViewDimension::D2Array,
        TextureDimension::D3 => TextureViewDimension::D3,
        TextureDimension::Cube => TextureViewDimension::Cube,
        TextureDimension::CubeArray => TextureViewDimension::CubeArray,
    }
}

/// The view dimension a binding of a texture of this dimension uses.
pub fn view_dimension(dimension: TextureDimension) -> (r: TextureViewDimension)
    ensures
        r == spec_view_dimension(dimension),
{
    match dimension {
        TextureDimension::D1 => TextureViewDimension::D1,
        TextureDimension::D2 => TextureViewDimension::D2,
        TextureDimension::D2Array => TextureViewDimension::D2Array,
        TextureDimension::D3 => TextureViewDimension::D3,
        TextureDimension::Cube => TextureViewDimension::Cube,
        TextureDimension::CubeArray => TextureViewDimension::CubeArray,
    }
}

/// Copies a slice of plain entries into a vector.
pub fn copy_entries<T: Copy>(entries: &[T]) -> (r: Vec<T>)
    ensures
        r@ == entries@,
{
    let mut out: Vec<T> = Vec::new();
    let mut i: usize = 0;
    while i < entries.len()
        invariant
            i <= entries@.len(),
            out@ == entries@.subrange(0, i as int),
        decreases entries@.len() - i,
    {
        out.push(entries[i]);
        i = i + 1;
        assert(out@ =~= entries@.subrange(0, i as int));
    }
    assert(out@ =~= entries@);
    out
}

/// Collects the slots of a bind group layout, in the order they were added.
pub struct BindGroupLayoutBuilder {
    entries: Vec<BindGroupLayoutEntry>,
}

impl View for BindGroupLayoutBuilder {
    type V = Seq<BindGroupLayoutEntry>;

    closed spec fn view(&self) -> Seq<BindGroupLayoutEntry> {
        self.entries@
    }
}

impl BindGroupLayoutBuilder {
    pub fn new() -> (r: BindGroupLayoutBuilder)
        ensures
            r@ == Seq::<BindGroupLayoutEntry>::empty(),
    {
        BindGroupLayoutBuilder { entries: Vec::new() }
    }

    /// The entries added so far.
    pub fn entries(&self) -> (r: &[BindGroupLayoutEntry])
        ensures
            r@ == self@,
    {
        self.entries.as_slice()
    }

    pub fn with_entry(self, entry: BindGroupLayoutEntry) -> (r: BindGroupLayoutBuilder)
        ensures
            r@ == self@.push(entry),
    {
        let mut s = self;
        s.entries.push(entry);
        s
    }

    /// Adds a buffer slot without a dynamic offset.
    pub fn with_buffer(
        self,
        binding: u32,
        visibility: ShaderStages,
        buffer: BufferBindingType,
        min_binding_size: Option<u64>,
        array_size: Option<u32>,
    ) -> (r: BindGroupLayoutBuilder)
        ensures
            r@ == self@.push(
                BindGroupLayoutEntry {
                    binding,
                    visibility,
                    ty: BindingType::Buffer { ty: buffer, has_dynamic_offset: false, min_binding_size },
                    count: array_size,
                },
            ),
    {
        let mut s = self;
        s.entries.push(
            BindGroupLayoutEntry {
                binding,
                visibility,
                ty: BindingType::Buffer { ty: buffer, has_dynamic_offset: false, min_binding_size },
                count: array_size,
            },
        );
        s
    }

    /// Adds a uniform buffer slot.
    pub fn with_uniform_buffer(
        self,
        binding: u32,
        visibility: ShaderStages,
        dynamic: bool,
        min_binding_size: Option<u64>,
        array_size: Option<u32>,
    ) -> (r: BindGroupLayoutBuilder)
        ensures
            r@ == self@.push(
                BindGroupLayoutEntry {
                    binding,
                    visibility,
                    ty: BindingType::Buffer {
                        ty: BufferBindingType::Uniform,
                        has_dynamic_offset: dynamic,
                        min_binding_size,
                    },
                    count: array_size,
                },
            ),
    {
        let mut s = self;
        s.entries.push(
            BindGroupLayoutEntry {
                binding,
                visibility,
                ty: BindingType::Buffer {
                    ty: BufferBindingType::Uniform,
                    has_dynamic_offset: dynamic,
                    min_binding_size,
                },
                count: array_size,
            },
        );
        s
    }

    /// Adds a storage buffer slot.
    pub fn with_storage_buffer(
        self,
        binding: u32,
        visibility: ShaderStages,
        dynamic: bool,
        read_only: bool,
        min_binding_size: Option<u64>,
        count: Option<u32>,
    ) -> (r: BindGroupLayoutBuilder)
        ensures
            r@ == self@.push(
                BindGroupLayoutEntry {
                    binding,
                    visibility,
                    ty: BindingType::Buffer {
                        ty: BufferBindingType::Storage { read_only },
                        has_dynamic_offset: dynamic,
                        min_binding_size,
                    },
                    count,
                },
            ),
    {
        let mut s = self;
        s.entries.push(
            BindGroupLayoutEntry {
                binding,
                visibility,
                ty: BindingType::Buffer {
                    ty: BufferBindingType::Storage { read_only },
                    has_dynamic_offset: dynamic,
                    min_binding_size,
                },
                count,
            },
        );
        s
    }

    /// Adds a sampled texture slot.
    pub fn with_texture(
        self,
        binding: u32,
        texture: TextureSampleType,
        dimension: TextureDimension,
        visibility: ShaderStages,
        multisampled: bool,
    ) -> (r: BindGroupLayoutBuilder)
        ensures
            r@ == self@.push(
                BindGroupLayoutEntry {
                    binding,
                    visibility,
                    ty: BindingType::Texture {
                        sample_type: texture,
                        view_dimension: spec_view_dimension(dimension),
                        multisampled,
                    },
                    count: None,
                },
            ),
    {
        let view_dimension = view_dimension(dimension);
        let mut s = self;
        s.entries.push(
            BindGroupLayoutEntry {
                binding,
                visibility,
                ty: BindingType::Texture { sample_type: texture, view_dimension, multisampled },
                count: None,
            },
        );
        s
    }

    /// Adds a storage texture slot.
    pub fn with_storage_texture(
        self,
        binding: u32,
        visibility: ShaderStages,
        access: StorageTextureAccess,
        format: TextureFormat,
        dimension: TextureDimension,
    ) -> (r: BindGroupLayoutBuilder)
        ensures
            r@ == self@.push(
                BindGroupLayoutEntry {
                    binding,
                    visibility,
                    ty: BindingType::StorageTexture {
                        access,
                        format,
                        view_dimension: spec_view_dimension(dimension),
                    },
                    count: None,
                },
            ),
    {
        let view_dimension = view_dimension(dimension);
        let mut s = self;
        s.entries.push(
            BindGroupLayoutEntry {
                binding,
                visibility,
                ty: BindingType::StorageTexture { access, format, view_dimension },
                count: None,
            },
        );
        s
    }

    /// Adds a sampler slot.
    pub fn with_sampler(self, binding: u32, sampler: SamplerBindingType, visibility: ShaderStages) -> (r:
        BindGroupLayoutBuilder)
        ensures
            r@ == self@.push(
                BindGroupLayoutEntry { binding, visibility, ty: BindingType::Sampler(sampler), count: None },
            ),
    {
        let mut s = self;
        s.entries.push(
            BindGroupLayoutEntry { binding, visibility, ty: BindingType::Sampler(sampler), count: None },
        );
        s
    }

    /// Creates the layout on the device from the entries collected.
    pub fn build(self, device: &mut RenderDevice) -> (r: BindGroupLayout)
        requires
            old(device)@.next_id < u64::MAX,
        ensures
            r@.id == old(device)@.next_id,
            r@.entries == self@,
            final(device)@.next_id == old(device)@.next_id + 1,
            final(device)@.limits == old(device)@.limits,
            final(device)@.commands.len() == old(device)@.commands.len() + 1,
            final(device)@.commands.drop_last() == old(device)@.commands,
            final(device)@.commands.last() matches DeviceCommand::CreateBindGroupLayout { id, entries }
                && id == r@.id && entries@ == self@,
    {
        let id = device.allocate_id();
        let entries = copy_entries(self.entries.as_slice());
        device.submit(DeviceCommand::CreateBindGroupLayout { id, entries: self.entries });
        BindGroupLayout { id, entries }
    }
}

/// The abstract state of a bind group layout: its id and its slots.
pub struct BindGroupLayoutView {
    pub id: u64,
    pub entries: Seq<BindGroupLayoutEntry>,
}

/// A bind group layout created on the device.
pub struct BindGroupLayout {
    id: u64,
    entries: Vec<BindGroupLayoutEntry>,
}

impl View for BindGroupLayout {
    type V = BindGroupLayoutView;

    closed spec fn view(&self) -> BindGroupLayoutView {
        BindGroupLayoutView { id: self.id, entries: self.entries@ }
    }
}

impl BindGroupLayout {
    /// A layout for an object the device already created under `id`.
    pub fn new(id: u64, entries: Vec<BindGroupLayoutEntry>) -> (r: BindGroupLayout)
        ensures
            r@.id == id,
            r@.entries == entries@,
    {
        BindGroupLayout { id, entries }
    }

    pub fn id(&self) -> (r: u64)
        ensures
            r == self@.id,
    {
        self.id
    }

    /// The slots of the layout.
    pub fn inner(&self) -> (r: &[BindGroupLayoutEntry])
        ensures
            r@ == self@.entries,
    {
        self.entries.as_slice()
    }
}

/// Collects the resources of a bind group, in the order they were added.
pub struct BindGroupEntries {
    entries: Vec<BindGroupEntry>,
}

impl View for BindGroupEntries {
    type V = Seq<BindGroupEntry>;

    closed spec fn view(&self) -> Seq<BindGroupEntry> {
        self.entries@
    }
}

impl BindGroupEntries {
    pub fn new() -> (r: BindGroupEntries)
        ensures
            r@ == Seq::<BindGroupEntry>::empty(),
    {
        BindGroupEntries { entries: Vec::new() }
    }

    pub fn with_entry(self, entry: BindGroupEntry) -> (r: BindGroupEntries)
        ensures
            r@ == self@.push(entry),
    {
        let mut s = self;
        s.entries.push(entry);
        s
    }

    /// Binds `size` bytes (all that follow `offset` when `None`) of the buffer `buffer`.
    pub fn add_buffer(&mut self, binding: u32, buffer: u64, offset: u64, size: Option<u64>)
        ensures
            final(self)@ == old(self)@.push(
                BindGroupEntry { binding, resource: BindingResource::Buffer { id: buffer, offset, size } },
            ),
    {
        self.entries.push(
            BindGroupEntry { binding, resource: BindingResource::Buffer { id: buffer, offset, size } },
        );
    }

    /// Binds the texture view `view`.
    pub fn add_texture(&mut self, binding: u32, view: u64)
        ensures
            final(self)@ == old(self)@.push(
                BindGroupEntry { binding, resource: BindingResource::TextureView { id: view } },
            ),
    {
        self.entries.push(BindGroupEntry { binding, resource: BindingResource::TextureView { id: view } });
    }

    /// Binds the sampler `sampler`.
    pub fn add_sampler(&mut self, binding: u32, sampler: u64)
        ensures
            final(self)@ == old(self)@.push(
                BindGroupEntry { binding, resource: BindingResource::Sampler { id: sampler } },
            ),
    {
        self.entries.push(BindGroupEntry { binding, resource: BindingResource::Sampler { id: sampler } });
    }

    pub fn entries(&self) -> (r: &[BindGroupEntry])
        ensures
            r@ == self@,
    {
        self.entries.as_slice()
    }
}

/// A bind group created on the device, with data of the caller's choice.
pub struct BindGroup<D> {
    id: u64,
    layout: u64,
    data: D,
}

impl<D> BindGroup<D> {
    pub closed spec fn spec_id(&self) -> u64 {
        self.id
    }

    pub closed spec fn spec_layout(&self) -> u64 {
        self.layout
    }

    pub closed spec fn spec_data(&self) -> D {
        self.data
    }

    /// Creates a bind group over `layout` with the given resources.
    pub fn create(device: &mut RenderDevice, layout: &BindGroupLayout, entries: &[BindGroupEntry], data: D) -> (r:
        BindGroup<D>)
        requires
            old(device)@.next_id < u64::MAX,
        ensures
            r.spec_id() == old(device)@.next_id,
            r.spec_layout() == layout@.id,
            r.spec_data() == data,
            final(device)@.next_id == old(device)@.next_id + 1,
            final(device)@.limits == old(device)@.limits,
            final(device)@.commands.len() == old(device)@.commands.len() + 1,
            final(device)@.commands.drop_last() == old(device)@.commands,
            final(device)@.commands.last() matches DeviceCommand::CreateBindGroup { id, layout: l, entries: e }
                && id == r.spec_id() && l == layout@.id && e@ == entries@,
    {
        let id = device.allocate_id();
        let copied = copy_entries(entries);
        device.submit(DeviceCommand::CreateBindGroup { id, layout: layout.id, entries: copied });
        BindGroup { id, layout: layout.id, data }
    }

    pub fn id(&self) -> (r: u64)
        ensures
            r == self.spec_id(),
    {
        self.id
    }

    /// The id of the GPU object.
    pub fn inner(&self) -> (r: u64)
        ensures
            r == self.spec_id(),
    {
        self.id
    }

    /// The id of the layout the group was created over.
    pub fn layout(&self) -> (r: u64)
        ensures
            r == self.spec_layout(),
    {
        self.layout
    }

    pub fn data(&self) -> (r: &D)
        ensures
            *r == self.spec_data(),
    {
        &self.data
    }

    /// The data carried by the group, for changing in place.
    pub fn data_mut(&mut self) -> (r: &mut D)
        ensures
            *r == old(self).spec_data(),
            final(self).spec_data() == *final(r),
            final(self).spec_id() == old(self).spec_id(),
            final(self).spec_layout() == old(self).spec_layout(),
    {
        &mut self.data
    }

    /// Replaces the data carried by the group.
    pub fn set_data(&mut self, data: D)
        ensures
            final(self).spec_data() == data,
            final(self).spec_id() == old(self).spec_id(),
            final(self).spec_layout() == old(self).spec_layout(),
    {
        self.data = data;
    }
}

/// Why a bind group could not be created.
#[derive(Clone, PartialEq, Eq, Debug)]
pub enum CreateBindGroupError {
    Error(String),
    InvalidLayout,
    MissingTexture { id: u128 },
    MissingSampler { id: u128 },
    MissingBuffer,
}

/// The character of decimal digit `d`.
pub open spec fn digit_char(d: nat) -> char {
    (48 + d) as char
}

/// The decimal digits of `n`, most significant first.
pub open spec fn decimal(n: nat) -> Seq<char>
    decreases n,
{
    if n < 10 {
        seq![digit_char(n)]
    } else {
        decimal(n / 10).push(digit_char(n % 10))
    }
}

/// The text of one decimal digit.
fn digit_str(d: u128) -> (r: &'static str)
    requires
        d < 10,
    ensures
        r@ == seq![digit_char(d as nat)],
{
    proof {
        reveal_strlit("0");
        reveal_strlit("1");
        reveal_strlit("2");
        reveal_strlit("3");
        reveal_strlit("4");
        reveal_strlit("5");
        reveal_strlit("6");
        reveal_strlit("7");
        reveal_strlit("8");
        reveal_strlit("9");
    }
    if d == 0 {
        assert("0"@ =~= seq![digit_char(0)]);
        "0"
    } else if d == 1 {
        assert("1"@ =~= seq![digit_char(1)]);
        "1"
    } else if d == 2 {
        assert("2"@ =~= seq![digit_char(2)]);
        "2"
    } else if d == 3 {
        assert("3"@ =~= seq![digit_char(3)]);
        "3"
    } else if d == 4 {
        assert("4"@ =~= seq![digit_char(4)]);
        "4"
    } else if d == 5 {
        assert("5"@ =~= seq![digit_char(5)]);
        "5"
    } else if d == 6 {
        assert("6"@ =~= seq![digit_char(6)]);
        "6"
    } else if d == 7 {
        assert("7"@ =~= seq![digit_char(7)]);
        "7"
    } else if d == 8 {
        assert("8"@ =~= seq![digit_char(8)]);
        "8"
    } else {
        assert("9"@ =~= seq![digit_char(9)]);
        "9"
    }
}

/// Appends the decimal digits of `n` to `out`.
fn append_decimal(out: &mut String, n: u128)
    ensures
        final(out)@ == old(out)@ + decimal(n as nat),
    decreases n,
{
    if n < 10 {
        out.append(digit_str(n));
    } else {
        append_decimal(out, n / 10);
        out.append(digit_str(n % 10));
        assert(decimal(n as nat) == decimal((n / 10) as nat).push(digit_char((n % 10) as nat)));
    }
}

impl CreateBindGroupError {
    /// The text the error is shown as: the wrapped message, or what is
    /// missing, with its id in decimal.
    pub fn to_string(&self) -> (r: String)
        ensures
            match self {
                CreateBindGroupError::Error(m) => r@ == m@,
                CreateBindGroupError::InvalidLayout => r@ == "Invalid bind group layout"@,
                CreateBindGroupError::MissingTexture { id } => r@ == "Missing texture: "@ + decimal(*id as nat),
                CreateBindGroupError::MissingSampler { id } => r@ == "Missing sampler: "@ + decimal(*id as nat),
                CreateBindGroupError::MissingBuffer => r@ == "Missing buffer"@,
            },
    {
        match self {
            CreateBindGroupError::Error(m) => m.clone(),
            CreateBindGroupError::InvalidLayout => String::from_str("Invalid bind group layout"),
            CreateBindGroupError::MissingTexture { id } => {
                let mut s = String::from_str("Missing texture: ");
                append_decimal(&mut s, *id);
                s
            },
            CreateBindGroupError::MissingSampler { id } => {
                let mut s = String::from_str("Missing sampler: ");
                append_decimal(&mut s, *id);
                s
            },
            CreateBindGroupError::MissingBuffer => String::from_str("Missing buffer"),
        }
    }

    /// Wraps the message of another error.
    pub fn from_error(message: String) -> (r: CreateBindGroupError)
        ensures
            r == CreateBindGroupError::Error(message),
    {
        CreateBindGroupError::Error(message)
    }

    /// The extraction error this failure becomes: a missing resource is a
    /// missing dependency, anything else an error.
    pub fn into_extract_error(self) -> (r: ExtractError)
        ensures
            match self {
                CreateBindGroupError::Error(m) => r == ExtractError::Error(m),
                CreateBindGroupError::InvalidLayout => r matches ExtractError::Error(m) && m@
                    == "Invalid bind group layout"@,
                _ => r == ExtractError::MissingDependency,
            },
    {
        match self {
            CreateBindGroupError::Error(m) => ExtractError::Error(m),
            CreateBindGroupError::InvalidLayout => ExtractError::Error(String::from_str("Invalid bind group layout")),
            _ => ExtractError::MissingDependency,
        }
    }
}

} // verus!
