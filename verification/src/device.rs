use crate::binding::{BindGroupEntry, BindGroupLayoutEntry};
use crate::flags::BufferUsages;
use crate::mesh::VertexBufferLayout;
use crate::pipeline::{DepthStencilState, FragmentCommand, MultisampleState, PrimitiveState};
use crate::shader::ShaderCode;
use crate::texture::{SamplerDescriptor, TextureDescriptor};
use vstd::prelude::*;

verus! {

/// An optional debug label of a GPU object.
pub type Label = Option<String>;

/// The device limits that the resource logic reads.
#[derive(Clone, Copy, PartialEq, Eq, Structural, Debug)]
pub struct Limits {
    pub min_uniform_buffer_offset_alignment: u32,
    pub min_storage_buffer_offset_alignment: u32,
    pub max_uniform_buffer_binding_size: u32,
    pub max_storage_buffers_per_shader_stage: u32,
}

/// One piece of work that the library hands to the GPU device.
///
/// The resource types decide what the device must do; the device executor
/// performs the commands in order. Every object is named by the id that the
/// library allocated for it.
#[allow(inconsistent_fields)]
pub enum DeviceCommand {
    /// Create a buffer; with `contents`, initialise it with those bytes.
    CreateBuffer { id: u64, size: u64, usage: BufferUsages, label: Label, contents: Option<Vec<u8>> },
    /// Write `data` into the buffer `id` at `offset`.
    WriteBuffer { id: u64, offset: u64, data: Vec<u8> },
    /// Create a texture.
    CreateTexture { id: u64, desc: TextureDescriptor },
    /// Create a view of all of the texture `texture`, with the default descriptor.
    CreateTextureView { id: u64, texture: u64 },
    /// Write pixels into the texture `id`, from `layer` on, over `width` by
    /// `height` by `depth` texels, with the given row and image strides.
    WriteTexture {
        id: u64,
        layer: u32,
        data: Vec<u8>,
        bytes_per_row: Option<u32>,
        rows_per_image: Option<u32>,
        width: u32,
        height: u32,
        depth: u32,
    },
    /// Create a sampler.
    CreateSampler { id: u64, desc: SamplerDescriptor },
    /// Create a bind group layout.
    CreateBindGroupLayout { id: u64, entries: Vec<BindGroupLayoutEntry> },
    /// Create a bind group over a layout.
    CreateBindGroup { id: u64, layout: u64, entries: Vec<BindGroupEntry> },
    /// Create a shader module.
    CreateShaderModule { id: u64, source: ShaderCode },
    /// Create a pipeline layout over bind group layouts, in order.
    CreatePipelineLayout { id: u64, bind_group_layouts: Vec<u64> },
    /// Create a render pipeline.
    CreateRenderPipeline {
        id: u64,
        label: Label,
        layout: Option<u64>,
        vertex_module: u64,
        vertex_entry: String,
        buffers: Vec<VertexBufferLayout>,
        fragment: Option<FragmentCommand>,
        primitive: PrimitiveState,
        depth_stencil: Option<DepthStencilState>,
        multisample: MultisampleState,
    },
    /// Create a compute pipeline.
    CreateComputePipeline { id: u64, label: Label, layout: Option<u64>, module: u64, entry: String },
}

/// The abstract state of a device: its limits, the next free object id and
/// the commands recorded so far.
pub struct DeviceView {
    pub limits: Limits,
    pub next_id: u64,
    pub commands: Seq<DeviceCommand>,
}

/// A GPU device as the resource logic sees it: it hands out object ids and
/// records the commands that the executor sends to the GPU.
pub struct RenderDevice {
    limits: Limits,
    next_id: u64,
    commands: Vec<DeviceCommand>,
}

impl View for RenderDevice {
    type V = DeviceView;

    closed spec fn view(&self) -> DeviceView {
        DeviceView { limits: self.limits, next_id: self.next_id, commands: self.commands@ }
    }
}

impl RenderDevice {
    /// A device with the given limits, no command recorded, whose first id is 1.
    pub fn new(limits: Limits) -> (r: RenderDevice)
        ensures
            r@.limits == limits,
            r@.next_id == 1,
            r@.commands == Seq::<DeviceCommand>::empty(),
    {
        RenderDevice { limits, next_id: 1, commands: Vec::new() }
    }

    pub fn limits(&self) -> (r: Limits)
        ensures
            r == self@.limits,
    {
        self.limits
    }

    /// Whether another object id can be handed out.
    pub fn can_allocate(&self) -> (r: bool)
        ensures
            r == (self@.next_id < u64::MAX),
    {
        self.next_id < u64::MAX
    }

    /// Hands out a fresh object id: every id is larger than all before it.
    pub fn allocate_id(&mut self) -> (id: u64)
        requires
            old(self)@.next_id < u64::MAX,
        ensures
            id == old(self)@.next_id,
            final(self)@.next_id == id + 1,
            final(self)@.limits == old(self)@.limits,
            final(self)@.commands == old(self)@.commands,
    {
        let id = self.next_id;
        self.next_id = self.next_id + 1;
        id
    }

    /// Records one command.
    pub fn submit(&mut self, command: DeviceCommand)
        ensures
            final(self)@.commands == old(self)@.commands.push(command),
            final(self)@.next_id == old(self)@.next_id,
            final(self)@.limits == old(self)@.limits,
    {
        self.commands.push(command);
    }

    /// The commands recorded so far, oldest first.
    pub fn commands(&self) -> (r: &[DeviceCommand])
        ensures
            r@ == self@.commands,
    {
        self.commands.as_slice()
    }

    /// Hands the recorded commands to the executor and forgets them.
    pub fn take_commands(&mut self) -> (r: Vec<DeviceCommand>)
        ensures
            r@ == old(self)@.commands,
            final(self)@.commands == Seq::<DeviceCommand>::empty(),
            final(self)@.next_id == old(self)@.next_id,
            final(self)@.limits == old(self)@.limits,
    {
        let mut taken = Vec::new();
        std::mem::swap(&mut taken, &mut self.commands);
        taken
    }
}

/// Ids come out strictly increasing, so no two objects share one.
pub proof fn lemma_allocated_ids_distinct(first: u64, first_next: u64, second: u64)
    requires
        first_next == first + 1,
        second >= first_next,
    ensures
        first != second,
{
}

} // verus!
