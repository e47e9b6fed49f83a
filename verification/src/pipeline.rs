use crate::binding::BindGroupLayout;
use crate::device::{DeviceCommand, Label, RenderDevice};
use crate::handle::Handle;
use crate::index::IndexFormat;
use crate::material::BlendState;
use crate::mesh::{MeshTopology, VertexBufferLayout};
use crate::render_asset::RenderAssets;
use crate::shader::{Shader, ShaderMeta};
use crate::texture::{CompareFunction, TextureFormat};
use vstd::prelude::*;

verus! {

/// Which winding makes a triangle face the camera.
#[derive(Clone, Copy, PartialEq, Eq, Structural, Debug)]
pub enum FrontFace {
    Ccw,
    Cw,
}

/// A side of a triangle.
#[derive(Clone, Copy, PartialEq, Eq, Structural, Debug)]
pub enum Face {
    Front,
    Back,
}

/// How a polygon is rasterised.
#[derive(Clone, Copy, PartialEq, Eq, Structural, Debug)]
pub enum PolygonMode {
    Fill,
    Line,
    Point,
}

/// How vertices are assembled and rasterised.
#[derive(Clone, Copy, PartialEq, Eq, Structural, Debug)]
pub struct PrimitiveState {
    pub topology: MeshTopology,
    pub strip_index_format: Option<IndexFormat>,
    pub front_face: FrontFace,
    pub cull_mode: Option<Face>,
    pub unclipped_depth: bool,
    pub polygon_mode: PolygonMode,
    pub conservative: bool,
}

impl Default for PrimitiveState {
    /// Triangle lists, counter-clockwise front faces, nothing culled, filled.
    fn default() -> (r: PrimitiveState)
        ensures
            r == (PrimitiveState {
                topology: MeshTopology::TriangleList,
                strip_index_format: None,
                front_face: FrontFace::Ccw,
                cull_mode: None,
                unclipped_depth: false,
                polygon_mode: PolygonMode::Fill,
                conservative: false,
            }),
    {
        PrimitiveState {
            topology: MeshTopology::TriangleList,
            strip_index_format: None,
            front_face: FrontFace::Ccw,
            cull_mode: None,
            unclipped_depth: false,
            polygon_mode: PolygonMode::Fill,
            conservative: false,
        }
    }
}

/// What a stencil test does to the stencil value.
#[derive(Clone, Copy, PartialEq, Eq, Structural, Debug)]
pub enum StencilOperation {
    Keep,
    Zero,
    Replace,
    Invert,
    IncrementClamp,
    DecrementClamp,
    IncrementWrap,
    DecrementWrap,
}

/// The stencil test of one face.
#[derive(Clone, Copy, PartialEq, Eq, Structural, Debug)]
pub struct StencilFaceState {
    pub compare: CompareFunction,
    pub fail_op: StencilOperation,
    pub depth_fail_op: StencilOperation,
    pub pass_op: StencilOperation,
}

/// The stencil tests of both faces and the stencil masks.
#[derive(Clone, Copy, PartialEq, Eq, Structural, Debug)]
pub struct StencilState {
    pub front: StencilFaceState,
    pub back: StencilFaceState,
    pub read_mask: u32,
    pub write_mask: u32,
}

/// The depth bias; the slope scale and the clamp are the bit patterns of
/// 32-bit floats, which the library carries and never reads.
#[derive(Clone, Copy, PartialEq, Eq, Structural, Debug)]
pub struct DepthBiasState {
    pub constant: i32,
    pub slope_scale_bits: u32,
    pub clamp_bits: u32,
}

/// The depth and stencil tests of a pipeline.
#[derive(Clone, Copy, PartialEq, Eq, Structural, Debug)]
pub struct DepthStencilState {
    pub format: TextureFormat,
    pub depth_write_enabled: bool,
    pub depth_compare: CompareFunction,
    pub stencil: StencilState,
    pub bias: DepthBiasState,
}

/// The stencil state that tests nothing: always pass, keep the value, no mask.
pub open spec fn spec_default_stencil() -> StencilState {
    let face = StencilFaceState {
        compare: CompareFunction::Always,
        fail_op: StencilOperation::Keep,
        depth_fail_op: StencilOperation::Keep,
        pass_op: StencilOperation::Keep,
    };
    StencilState { front: face, back: face, read_mask: 0, write_mask: 0 }
}

impl Default for StencilState {
    fn default() -> (r: StencilState)
        ensures
            r == spec_default_stencil(),
    {
        let face = StencilFaceState {
            compare: CompareFunction::Always,
            fail_op: StencilOperation::Keep,
            depth_fail_op: StencilOperation::Keep,
            pass_op: StencilOperation::Keep,
        };
        StencilState { front: face, back: face, read_mask: 0, write_mask: 0 }
    }
}

impl Default for DepthBiasState {
    /// No bias (all bits zero, the float 0.0).
    fn default() -> (r: DepthBiasState)
        ensures
            r == (DepthBiasState { constant: 0, slope_scale_bits: 0, clamp_bits: 0 }),
    {
        DepthBiasState { constant: 0, slope_scale_bits: 0, clamp_bits: 0 }
    }
}

/// Multisampling: the sample count, the sample mask and alpha to coverage.
#[derive(Clone, Copy, PartialEq, Eq, Structural, Debug)]
pub struct MultisampleState {
    pub count: u32,
    pub mask: u64,
    pub alpha_to_coverage_enabled: bool,
}

impl Default for MultisampleState {
    /// One sample, every sample enabled, no alpha to coverage.
    fn default() -> (r: MultisampleState)
        ensures
            r == (MultisampleState { count: 1, mask: u64::MAX, alpha_to_coverage_enabled: false }),
    {
        MultisampleState { count: 1, mask: u64::MAX, alpha_to_coverage_enabled: false }
    }
}

/// The colour channels a target writes, as a bit set (red 1, green 2, blue 4, alpha 8).
pub const COLOR_WRITES_ALL: u32 = 15;

/// One colour target of a fragment stage.
#[derive(Clone, Copy, PartialEq, Eq, Structural, Debug)]
pub struct ColorTargetState {
    pub format: TextureFormat,
    pub blend: Option<BlendState>,
    pub write_mask: u32,
}

/// The vertex stage of a pipeline: a shader, its entry point and the
/// layouts of the vertex buffers it reads.
pub struct VertexState<'a> {
    pub shader: &'a Shader,
    pub entry: &'a str,
    pub buffers: Vec<VertexBufferLayout>,
}

/// The fragment stage of a pipeline: a shader, its entry point and the
/// colour targets it writes.
pub struct FragmentState<'a> {
    pub shader: &'a Shader,
    pub entry: &'a str,
    pub targets: Vec<Option<ColorTargetState>>,
}

/// Everything a render pipeline is created from.
pub struct RenderPipelineDesc<'a> {
    pub label: Option<&'a str>,
    pub layout: Option<&'a [&'a BindGroupLayout]>,
    pub vertex: VertexState<'a>,
    pub fragment: Option<FragmentState<'a>>,
    pub primitive: PrimitiveState,
    pub depth_state: Option<DepthStencilState>,
    pub multisample: MultisampleState,
}

/// The fragment stage as the device receives it: a module id, an entry
/// point and the colour targets.
pub struct FragmentCommand {
    pub module: u64,
    pub entry: String,
    pub targets: Vec<Option<ColorTargetState>>,
}

/// The ids of a list of bind group layouts.
pub open spec fn layout_ids(layouts: Seq<&BindGroupLayout>) -> Seq<u64> {
    layouts.map_values(|l: &BindGroupLayout| l@.id)
}

/// The ids of `layouts`, in order.
fn collect_layout_ids(layouts: &[&BindGroupLayout]) -> (r: Vec<u64>)
    ensures
        r@ == layout_ids(layouts@),
{
    let mut ids: Vec<u64> = Vec::new();
    let mut i: usize = 0;
    while i < layouts.len()
        invariant
            i <= layouts@.len(),
            ids@ == layout_ids(layouts@.subrange(0, i as int)),
        decreases layouts@.len() - i,
    {
        let id = layouts[i].id();
        proof {
            assert(layouts@.subrange(0, i + 1) == layouts@.subrange(0, i as int).push(layouts@[i as int]));
        }
        ids.push(id);
        i = i + 1;
    }
    proof {
        assert(layouts@.subrange(0, layouts@.len() as int) == layouts@);
    }
    ids
}

/// The label as an owned string.
fn owned_label(label: Option<&str>) -> (r: Label)
    ensures
        match label {
            Some(s) => r matches Some(t) && t@ == s@,
            None => r.is_none(),
        },
{
    match label {
        Some(s) => Some(s.to_owned()),
        None => None,
    }
}

/// The instance count a vertex shader asks for, from its metadata.
pub open spec fn shader_instances(shader: &Shader) -> Option<u32> {
    match shader.spec_meta() {
        Some(m) => m.spec_instances(),
        None => None,
    }
}

/// A render pipeline created on the device, and the number of instances it
/// draws when its vertex shader asks for some.
pub struct RenderPipeline {
    id: u64,
    instances: Option<u32>,
}

impl RenderPipeline {
    pub closed spec fn spec_id(&self) -> u64 {
        self.id
    }

    pub closed spec fn spec_instances(&self) -> Option<u32> {
        self.instances
    }

    /// Creates the pipeline: first, when a layout is given, a pipeline layout
    /// over its bind group layouts, then the pipeline over the vertex and
    /// fragment modules. The instance count is that of the vertex shader's
    /// metadata.
    pub fn create(device: &mut RenderDevice, desc: RenderPipelineDesc) -> (r: RenderPipeline)
        requires
            old(device)@.next_id + 2 <= u64::MAX,
        ensures
            final(device)@.limits == old(device)@.limits,
            r.spec_instances() == shader_instances(desc.vertex.shader),
            ({
                let n0 = old(device)@.next_id;
                let c0 = old(device)@.commands;
                let c = final(device)@.commands;
                let (pid, layout) = match desc.layout {
                    Some(_) => ((n0 + 1) as u64, Some(n0)),
                    None => (n0, None::<u64>),
                };
                &&& r.spec_id() == pid
                &&& final(device)@.next_id == pid + 1
                &&& c.len() == final(device)@.next_id - n0 + c0.len()
                &&& c.subrange(0, c0.len() as int) == c0
                &&& (desc.layout matches Some(ls) ==> c[c0.len() as int] matches DeviceCommand::CreatePipelineLayout {
                    id,
                    bind_group_layouts,
                } && id == n0 && bind_group_layouts@ == layout_ids(ls@))
                &&& c.last() matches DeviceCommand::CreateRenderPipeline {
                    id,
                    label,
                    layout: l,
                    vertex_module,
                    vertex_entry,
                    buffers,
                    fragment,
                    primitive,
                    depth_stencil,
                    multisample,
                }
                &&& id == pid && l == layout
                &&& (match desc.label {
                    Some(s) => label matches Some(t) && t@ == s@,
                    None => label.is_none(),
                })
                &&& vertex_module == desc.vertex.shader.spec_module()
                &&& vertex_entry@ == desc.vertex.entry@
                &&& buffers == desc.vertex.buffers
                &&& (match desc.fragment {
                    Some(f) => fragment matches Some(fc) && fc.module == f.shader.spec_module() && fc.entry@
                        == f.entry@ && fc.targets == f.targets,
                    None => fragment.is_none(),
                })
                &&& primitive == desc.primitive
                &&& depth_stencil == desc.depth_state
                &&& multisample == desc.multisample
            }),
    {
        let RenderPipelineDesc { label, layout, vertex, fragment, primitive, depth_state, multisample } = desc;
        let ghost c0 = device@.commands;
        let layout_id = match layout {
            Some(layouts) => {
                let ids = collect_layout_ids(layouts);
                let id = device.allocate_id();
                device.submit(DeviceCommand::CreatePipelineLayout { id, bind_group_layouts: ids });
                Some(id)
            },
            None => None,
        };
        let ghost c1 = device@.commands;
        let instances = match vertex.shader.meta() {
            Some(m) => m.instances(),
            None => None,
        };
        let fragment = match fragment {
            Some(f) => Some(
                FragmentCommand { module: f.shader.module(), entry: f.entry.to_owned(), targets: f.targets },
            ),
            None => None,
        };
        let id = device.allocate_id();
        device.submit(
            DeviceCommand::CreateRenderPipeline {
                id,
                label: owned_label(label),
                layout: layout_id,
                vertex_module: vertex.shader.module(),
                vertex_entry: vertex.entry.to_owned(),
                buffers: vertex.buffers,
                fragment,
                primitive,
                depth_stencil: depth_state,
                multisample,
            },
        );
        proof {
            let c = device@.commands;
            assert(c.subrange(0, c0.len() as int) =~= c0);
            if layout.is_some() {
                assert(c[c0.len() as int] == c1[c0.len() as int]);
            }
        }
        RenderPipeline { id, instances }
    }

    /// The same pipeline, drawing `instances` instances.
    pub fn with_instances(self, instances: u32) -> (r: RenderPipeline)
        requires
            instances > 0,
        ensures
            r.spec_id() == self.spec_id(),
            r.spec_instances() == Some(instances),
    {
        RenderPipeline { id: self.id, instances: Some(instances) }
    }

    pub fn id(&self) -> (r: u64)
        ensures
            r == self.spec_id(),
    {
        self.id
    }

    /// The pipeline object on the device.
    pub fn inner(&self) -> (r: u64)
        ensures
            r == self.spec_id(),
    {
        self.id
    }

    pub fn instances(&self) -> (r: Option<u32>)
        ensures
            r == self.spec_instances(),
    {
        self.instances
    }
}

/// The pipeline the device created under `id`, with no instance count.
pub closed spec fn spec_pipeline_of(id: u64) -> RenderPipeline {
    RenderPipeline { id, instances: None }
}

/// What a pipeline made of a device id holds.
pub proof fn lemma_pipeline_of(id: u64)
    ensures
        spec_pipeline_of(id).spec_id() == id,
        spec_pipeline_of(id).spec_instances() == None::<u32>,
{
}

impl From<u64> for RenderPipeline {
    /// A pipeline the device already created under `id`, with no instance count.
    fn from(id: u64) -> (r: RenderPipeline) {
        RenderPipeline { id, instances: None }
    }
}

impl vstd::std_specs::convert::FromSpecImpl<u64> for RenderPipeline {
    open spec fn obeys_from_spec() -> bool {
        true
    }

    open spec fn from_spec(id: u64) -> RenderPipeline {
        spec_pipeline_of(id)
    }
}

/// Everything a compute pipeline is created from.
pub struct ComputePipelineDesc<'a> {
    pub label: Option<&'a str>,
    pub layout: Option<&'a [&'a BindGroupLayout]>,
    pub shader: Handle<Shader>,
    pub entry: String,
}

/// The shader module a handle names: its own, or that of the shader stored
/// under its id.
pub open spec fn handle_module(shader: Handle<Shader>, shaders: Map<u128, Shader>) -> Option<u64> {
    match shader {
        Handle::Ref(id) => if shaders.contains_key(id.spec_id()) {
            Some(shaders[id.spec_id()].spec_module())
        } else {
            None
        },
        Handle::Owned(s) => Some(s.spec_module()),
    }
}

/// A compute pipeline created on the device.
pub struct ComputePipeline(u64);

impl ComputePipeline {
    pub closed spec fn spec_id(&self) -> u64 {
        self.0
    }

    /// Creates, when a layout is given, a pipeline layout over its bind group
    /// layouts, then looks the shader up: `None` when the handle names a
    /// shader that `shaders` does not hold (the layout stays created), else
    /// the pipeline over the shader's module.
    pub fn create(device: &mut RenderDevice, desc: ComputePipelineDesc, shaders: &RenderAssets<Shader>) -> (r:
        Option<ComputePipeline>)
        requires
            old(device)@.next_id + 2 <= u64::MAX,
        ensures
            final(device)@.limits == old(device)@.limits,
            r.is_some() <==> handle_module(desc.shader, shaders@).is_some(),
            ({
                let n0 = old(device)@.next_id;
                let c0 = old(device)@.commands;
                let c = final(device)@.commands;
                let (pid, layout) = match desc.layout {
                    Some(_) => ((n0 + 1) as u64, Some(n0)),
                    None => (n0, None::<u64>),
                };
                let made = if r.is_some() { 1int } else { 0int };
                &&& final(device)@.next_id == pid + made
                &&& c.len() == final(device)@.next_id - n0 + c0.len()
                &&& c.subrange(0, c0.len() as int) == c0
                &&& (desc.layout matches Some(ls) ==> c[c0.len() as int] matches DeviceCommand::CreatePipelineLayout {
                    id,
                    bind_group_layouts,
                } && id == n0 && bind_group_layouts@ == layout_ids(ls@))
                &&& (r matches Some(p) ==> {
                    &&& p.spec_id() == pid
                    &&& c.last() matches DeviceCommand::CreateComputePipeline { id, label, layout: l, module, entry }
                    &&& id == pid && l == layout
                    &&& Some(module) == handle_module(desc.shader, shaders@)
                    &&& entry@ == desc.entry@
                    &&& (match desc.label {
                        Some(s) => label matches Some(t) && t@ == s@,
                        None => label.is_none(),
                    })
                })
            }),
    {
        let ComputePipelineDesc { label, layout, shader, entry } = desc;
        let ghost c0 = device@.commands;
        let layout_id = match layout {
            Some(layouts) => {
                let ids = collect_layout_ids(layouts);
                let id = device.allocate_id();
                device.submit(DeviceCommand::CreatePipelineLayout { id, bind_group_layouts: ids });
                Some(id)
            },
            None => None,
        };
        let ghost c1 = device@.commands;
        let module = match &shader {
            Handle::Ref(id) => match shaders.get(id.id()) {
                Some(s) => s.module(),
                None => {
                    proof {
                        assert(device@.commands.subrange(0, c0.len() as int) =~= c0);
                    }
                    return None;
                },
            },
            Handle::Owned(s) => s.module(),
        };
        let id = device.allocate_id();
        device.submit(
            DeviceCommand::CreateComputePipeline { id, label: owned_label(label), layout: layout_id, module, entry },
        );
        proof {
            let c = device@.commands;
            assert(c.subrange(0, c0.len() as int) =~= c0);
            if layout.is_some() {
                assert(c[c0.len() as int] == c1[c0.len() as int]);
            }
        }
        Some(ComputePipeline(id))
    }

    /// The pipeline object on the device.
    pub fn inner(&self) -> (r: u64)
        ensures
            r == self.spec_id(),
    {
        self.0
    }
}

/// The compute pipeline the device created under `id`.
pub closed spec fn spec_compute_pipeline_of(id: u64) -> ComputePipeline {
    ComputePipeline(id)
}

/// A compute pipeline made of a device id is that pipeline.
pub proof fn lemma_compute_pipeline_of(id: u64)
    ensures
        spec_compute_pipeline_of(id).spec_id() == id,
{
}

impl From<u64> for ComputePipeline {
    /// A compute pipeline the device already created under `id`.
    fn from(id: u64) -> (r: ComputePipeline) {
        ComputePipeline(id)
    }
}

impl vstd::std_specs::convert::FromSpecImpl<u64> for ComputePipeline {
    open spec fn obeys_from_spec() -> bool {
        true
    }

    open spec fn from_spec(id: u64) -> ComputePipeline {
        spec_compute_pipeline_of(id)
    }
}

} // verus!
