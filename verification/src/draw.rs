use crate::buffer::{Buffer, BufferSliceId};
use crate::flags::ShaderStages;
use crate::graph_resources::IdMap;
use crate::index::IndexFormat;
use std::ops::Range;
use vstd::prelude::*;

verus! {

/// One command that a render pass performs.
#[allow(inconsistent_fields)]
pub enum PassCommand {
    SetVertexBuffer { slot: u32, slice: BufferSliceId },
    SetIndexBuffer { slice: BufferSliceId, format: IndexFormat },
    SetBindGroup { group: u32, bind_group: u64, offsets: Vec<u32> },
    SetPipeline { pipeline: u64 },
    SetScissorRect { x: u32, y: u32, width: u32, height: u32 },
    SetPushConstants { stages: ShaderStages, offset: u32, data: Vec<u8> },
    SetStencilReference { reference: u32 },
    Draw { vertices: Range<u32>, instances: Range<u32> },
    DrawIndexed { indices: Range<u32>, base_vertex: i32, instances: Range<u32> },
    DrawIndirect { buffer: u64, offset: u64 },
    DrawIndexedIndirect { buffer: u64, offset: u64 },
    MultiDrawIndirect { buffer: u64, offset: u64, count: u32 },
    MultiDrawIndirectCount { buffer: u64, offset: u64, count_buffer: u64, count_offset: u64, max_count: u32 },
    MultiDrawIndexedIndirect { buffer: u64, offset: u64, count: u32 },
    MultiDrawIndexedIndirectCount {
        buffer: u64,
        offset: u64,
        count_buffer: u64,
        count_offset: u64,
        max_count: u32,
    },
    PushDebugGroup { label: String },
    PopDebugGroup,
    BeginOcclusionQuery { query_index: u32 },
    EndOcclusionQuery,
    BeginPipelineStatisticsQuery { query_set: u64, query_index: u32 },
    EndPipelineStatisticsQuery,
    ExecuteBundles { bundles: Vec<u64> },
    InsertDebugMarker { label: String },
    WriteTimestamp { query_set: u64, query_index: u32 },
}

/// What a pass command says, with its lists as sequences.
#[allow(inconsistent_fields)]
pub enum PassCommandView {
    SetVertexBuffer { slot: u32, slice: BufferSliceId },
    SetIndexBuffer { slice: BufferSliceId, format: IndexFormat },
    SetBindGroup { group: u32, bind_group: u64, offsets: Seq<u32> },
    SetPipeline { pipeline: u64 },
    SetScissorRect { x: u32, y: u32, width: u32, height: u32 },
    SetPushConstants { stages: ShaderStages, offset: u32, data: Seq<u8> },
    SetStencilReference { reference: u32 },
    Draw { vertices: Range<u32>, instances: Range<u32> },
    DrawIndexed { indices: Range<u32>, base_vertex: i32, instances: Range<u32> },
    DrawIndirect { buffer: u64, offset: u64 },
    DrawIndexedIndirect { buffer: u64, offset: u64 },
    MultiDrawIndirect { buffer: u64, offset: u64, count: u32 },
    MultiDrawIndirectCount { buffer: u64, offset: u64, count_buffer: u64, count_offset: u64, max_count: u32 },
    MultiDrawIndexedIndirect { buffer: u64, offset: u64, count: u32 },
    MultiDrawIndexedIndirectCount {
        buffer: u64,
        offset: u64,
        count_buffer: u64,
        count_offset: u64,
        max_count: u32,
    },
    PushDebugGroup { label: Seq<char> },
    PopDebugGroup,
    BeginOcclusionQuery { query_index: u32 },
    EndOcclusionQuery,
    BeginPipelineStatisticsQuery { query_set: u64, query_index: u32 },
    EndPipelineStatisticsQuery,
    ExecuteBundles { bundles: Seq<u64> },
    InsertDebugMarker { label: Seq<char> },
    WriteTimestamp { query_set: u64, query_index: u32 },
}

impl View for PassCommand {
    type V = PassCommandView;

    open spec fn view(&self) -> PassCommandView {
        match *self {
            PassCommand::SetVertexBuffer { slot, slice } => PassCommandView::SetVertexBuffer { slot, slice },
            PassCommand::SetIndexBuffer { slice, format } => PassCommandView::SetIndexBuffer { slice, format },
            PassCommand::SetBindGroup { group, bind_group, offsets } => PassCommandView::SetBindGroup {
                group,
                bind_group,
                offsets: offsets@,
            },
            PassCommand::SetPipeline { pipeline } => PassCommandView::SetPipeline { pipeline },
            PassCommand::SetScissorRect { x, y, width, height } => PassCommandView::SetScissorRect {
                x,
                y,
                width,
                height,
            },
            PassCommand::SetPushConstants { stages, offset, data } => PassCommandView::SetPushConstants {
                stages,
                offset,
                data: data@,
            },
            PassCommand::SetStencilReference { reference } => PassCommandView::SetStencilReference { reference },
            PassCommand::Draw { vertices, instances } => PassCommandView::Draw { vertices, instances },
            PassCommand::DrawIndexed { indices, base_vertex, instances } => PassCommandView::DrawIndexed {
                indices,
                base_vertex,
                instances,
            },
            PassCommand::DrawIndirect { buffer, offset } => PassCommandView::DrawIndirect { buffer, offset },
            PassCommand::DrawIndexedIndirect { buffer, offset } => PassCommandView::DrawIndexedIndirect {
                buffer,
                offset,
            },
            PassCommand::MultiDrawIndirect { buffer, offset, count } => PassCommandView::MultiDrawIndirect {
                buffer,
                offset,
                count,
            },
            PassCommand::MultiDrawIndirectCount { buffer, offset, count_buffer, count_offset, max_count } =>
                PassCommandView::MultiDrawIndirectCount { buffer, offset, count_buffer, count_offset, max_count },
            PassCommand::MultiDrawIndexedIndirect { buffer, offset, count } =>
                PassCommandView::MultiDrawIndexedIndirect { buffer, offset, count },
            PassCommand::MultiDrawIndexedIndirectCount { buffer, offset, count_buffer, count_offset, max_count } =>
                PassCommandView::MultiDrawIndexedIndirectCount {
                buffer,
                offset,
                count_buffer,
                count_offset,
                max_count,
            },
            PassCommand::PushDebugGroup { label } => PassCommandView::PushDebugGroup { label: label@ },
            PassCommand::PopDebugGroup => PassCommandView::PopDebugGroup,
            PassCommand::BeginOcclusionQuery { query_index } => PassCommandView::BeginOcclusionQuery { query_index },
            PassCommand::EndOcclusionQuery => PassCommandView::EndOcclusionQuery,
            PassCommand::BeginPipelineStatisticsQuery { query_set, query_index } =>
                PassCommandView::BeginPipelineStatisticsQuery { query_set, query_index },
            PassCommand::EndPipelineStatisticsQuery => PassCommandView::EndPipelineStatisticsQuery,
            PassCommand::ExecuteBundles { bundles } => PassCommandView::ExecuteBundles { bundles: bundles@ },
            PassCommand::InsertDebugMarker { label } => PassCommandView::InsertDebugMarker { label: label@ },
            PassCommand::WriteTimestamp { query_set, query_index } => PassCommandView::WriteTimestamp {
                query_set,
                query_index,
            },
        }
    }
}

/// The commands an optional command stands for: none or one.
pub open spec fn sent(c: Option<PassCommand>) -> Seq<PassCommandView> {
    match c {
        Some(c) => seq![c@],
        None => Seq::empty(),
    }
}

/// A bind group as last set on a pass: its id and dynamic offsets.
pub struct BoundGroup {
    pub id: u64,
    pub offsets: Vec<u32>,
}

/// The abstract state of a render state: what is bound on the pass.
pub struct RenderStateView {
    pub vertex_buffers: Map<u32, BufferSliceId>,
    pub index_buffer: Option<BufferSliceId>,
    pub bind_groups: Map<u32, (u64, Seq<u32>)>,
    pub pipeline: Option<u64>,
}

/// Remembers what is bound on a render pass so that binding the same thing
/// again sends nothing. Each method returns the command the pass must
/// perform, if any.
pub struct RenderState {
    vertex_buffers: IdMap<BufferSliceId>,
    index_buffer: Option<BufferSliceId>,
    bind_groups: IdMap<BoundGroup>,
    pipeline: Option<u64>,
}

/// The bound groups as ids and offset sequences.
pub open spec fn bound_view(m: Map<u32, BoundGroup>) -> Map<u32, (u64, Seq<u32>)> {
    m.map_values(|b: BoundGroup| (b.id, b.offsets@))
}

impl View for RenderState {
    type V = RenderStateView;

    closed spec fn view(&self) -> RenderStateView {
        RenderStateView {
            vertex_buffers: self.vertex_buffers@,
            index_buffer: self.index_buffer,
            bind_groups: bound_view(self.bind_groups@),
            pipeline: self.pipeline,
        }
    }
}

/// The state with nothing bound.
pub open spec fn empty_state() -> RenderStateView {
    RenderStateView {
        vertex_buffers: Map::empty(),
        index_buffer: None,
        bind_groups: Map::empty(),
        pipeline: None,
    }
}

/// Whether setting bind group `id` with `offsets` at `group` is sent: when
/// nothing is bound there, when another group is bound, or when the bound
/// group has the very same offsets. (The same group with other offsets is
/// not sent again.)
pub open spec fn sends_bind_group(bound: Map<u32, (u64, Seq<u32>)>, group: u32, id: u64, offsets: Seq<u32>) -> bool {
    match bound.get(group) {
        None => true,
        Some(b) => b.0 != id || b.1 == offsets,
    }
}

/// Binding `slice` as the vertex buffer of `slot`: sent unless it is bound there.
pub open spec fn vertex_step(s: RenderStateView, slot: u32, slice: BufferSliceId) -> (RenderStateView, Seq<
    PassCommandView,
>) {
    if s.vertex_buffers.get(slot) == Some(slice) {
        (s, Seq::empty())
    } else {
        (
            RenderStateView { vertex_buffers: s.vertex_buffers.insert(slot, slice), ..s },
            seq![PassCommandView::SetVertexBuffer { slot, slice }],
        )
    }
}

/// Binding `slice` as the 32-bit index buffer: sent unless it is bound.
pub open spec fn index_step(s: RenderStateView, slice: BufferSliceId) -> (RenderStateView, Seq<PassCommandView>) {
    if s.index_buffer == Some(slice) {
        (s, Seq::empty())
    } else {
        (
            RenderStateView { index_buffer: Some(slice), ..s },
            seq![PassCommandView::SetIndexBuffer { slice, format: IndexFormat::Uint32 }],
        )
    }
}

/// Binding group `id` at `group` with `offsets`, as `sends_bind_group` decides.
pub open spec fn bind_step(s: RenderStateView, group: u32, id: u64, offsets: Seq<u32>) -> (RenderStateView, Seq<
    PassCommandView,
>) {
    if sends_bind_group(s.bind_groups, group, id, offsets) {
        (
            RenderStateView { bind_groups: s.bind_groups.insert(group, (id, offsets)), ..s },
            seq![PassCommandView::SetBindGroup { group, bind_group: id, offsets }],
        )
    } else {
        (s, Seq::empty())
    }
}

/// Setting pipeline `id`: sent unless it is set, and then all other
/// bindings are forgotten.
pub open spec fn pipeline_step(s: RenderStateView, id: u64) -> (RenderStateView, Seq<PassCommandView>) {
    if s.pipeline == Some(id) {
        (s, Seq::empty())
    } else {
        (RenderStateView { pipeline: Some(id), ..empty_state() }, seq![PassCommandView::SetPipeline { pipeline: id }])
    }
}

fn slices_equal(a: &[u32], b: &[u32]) -> (r: bool)
    ensures
        r == (a@ == b@),
{
    if a.len() != b.len() {
        return false;
    }
    let mut i: usize = 0;
    while i < a.len()
        invariant
            a@.len() == b@.len(),
            0 <= i <= a@.len(),
            forall|j: int| 0 <= j < i ==> a@[j] == b@[j],
        decreases a.len() - i,
    {
        if a[i] != b[i] {
            return false;
        }
        i = i + 1;
    }
    assert(a@ =~= b@);
    true
}

fn copy_u32s(a: &[u32]) -> (r: Vec<u32>)
    ensures
        r@ == a@,
{
    let mut v: Vec<u32> = Vec::new();
    let mut i: usize = 0;
    while i < a.len()
        invariant
            0 <= i <= a@.len(),
            v@ == a@.subrange(0, i as int),
        decreases a.len() - i,
    {
        v.push(a[i]);
        i = i + 1;
    }
    assert(v@ =~= a@);
    v
}

fn copy_bytes(a: &[u8]) -> (r: Vec<u8>)
    ensures
        r@ == a@,
{
    let mut v: Vec<u8> = Vec::new();
    let mut i: usize = 0;
    while i < a.len()
        invariant
            0 <= i <= a@.len(),
            v@ == a@.subrange(0, i as int),
        decreases a.len() - i,
    {
        v.push(a[i]);
        i = i + 1;
    }
    assert(v@ =~= a@);
    v
}

impl RenderState {
    /// Nothing bound.
    pub fn new() -> (r: RenderState)
        ensures
            r@ == empty_state(),
    {
        let r = RenderState {
            vertex_buffers: IdMap::new(),
            index_buffer: None,
            bind_groups: IdMap::new(),
            pipeline: None,
        };
        assert(r@.bind_groups =~= Map::<u32, (u64, Seq<u32>)>::empty());
        r
    }

    /// Binds `slice` as the vertex buffer of `slot`, unless it already is.
    pub fn set_vertex_buffer(&mut self, slot: u32, slice: BufferSliceId) -> (r: Option<PassCommand>)
        ensures
            (final(self)@, sent(r)) == vertex_step(old(self)@, slot, slice),
            old(self)@.vertex_buffers.get(slot) == Some(slice) ==> r is None && final(self)@ == old(self)@,
            old(self)@.vertex_buffers.get(slot) != Some(slice) ==> r == Some(
                PassCommand::SetVertexBuffer { slot, slice },
            ) && final(self)@ == (RenderStateView {
                vertex_buffers: old(self)@.vertex_buffers.insert(slot, slice),
                ..old(self)@
            }),
    {
        let send = match self.vertex_buffers.get(slot) {
            Some(id) => *id != slice,
            None => true,
        };
        if send {
            self.vertex_buffers.insert(slot, slice);
            Some(PassCommand::SetVertexBuffer { slot, slice })
        } else {
            None
        }
    }

    /// Binds `slice` as the index buffer (of 32-bit indices), unless it already is.
    pub fn set_index_buffer(&mut self, slice: BufferSliceId) -> (r: Option<PassCommand>)
        ensures
            (final(self)@, sent(r)) == index_step(old(self)@, slice),
            old(self)@.index_buffer == Some(slice) ==> r is None && final(self)@ == old(self)@,
            old(self)@.index_buffer != Some(slice) ==> r == Some(
                PassCommand::SetIndexBuffer { slice, format: IndexFormat::Uint32 },
            ) && final(self)@ == (RenderStateView { index_buffer: Some(slice), ..old(self)@ }),
    {
        let send = match self.index_buffer {
            Some(id) => id != slice,
            None => true,
        };
        if send {
            self.index_buffer = Some(slice);
            Some(PassCommand::SetIndexBuffer { slice, format: IndexFormat::Uint32 })
        } else {
            None
        }
    }

    /// Binds the bind group `id` at `group` with dynamic `offset`s, when
    /// `sends_bind_group` says so.
    pub fn set_bind_group(&mut self, group: u32, id: u64, offset: &[u32]) -> (r: Option<PassCommand>)
        ensures
            (final(self)@, sent(r)) == bind_step(old(self)@, group, id, offset@),
            !sends_bind_group(old(self)@.bind_groups, group, id, offset@) ==> r is None && final(self)@ == old(self)@,
            sends_bind_group(old(self)@.bind_groups, group, id, offset@) ==> {
                &&& r matches Some(PassCommand::SetBindGroup { group: g, bind_group: b, offsets: o }) && g == group
                    && b == id && o@ == offset@
                &&& final(self)@ == (RenderStateView {
                    bind_groups: old(self)@.bind_groups.insert(group, (id, offset@)),
                    ..old(self)@
                })
            },
    {
        let send = match self.bind_groups.get(group) {
            Some(b) => b.id != id || slices_equal(b.offsets.as_slice(), offset),
            None => true,
        };
        proof {
            assert(self@.bind_groups.get(group) == match self.bind_groups@.get(group) {
                Some(b) => Some((b.id, b.offsets@)),
                None => None,
            });
        }
        if send {
            let ghost before = self.bind_groups@;
            self.bind_groups.insert(group, BoundGroup { id, offsets: copy_u32s(offset) });
            proof {
                assert(bound_view(self.bind_groups@) =~= bound_view(before).insert(group, (id, offset@)));
            }
            Some(PassCommand::SetBindGroup { group, bind_group: id, offsets: copy_u32s(offset) })
        } else {
            None
        }
    }

    /// Sets the pipeline `id`, unless it is set; a new pipeline forgets all
    /// other bindings.
    pub fn set_pipeline(&mut self, id: u64) -> (r: Option<PassCommand>)
        ensures
            (final(self)@, sent(r)) == pipeline_step(old(self)@, id),
            old(self)@.pipeline == Some(id) ==> r is None && final(self)@ == old(self)@,
            old(self)@.pipeline != Some(id) ==> r == Some(PassCommand::SetPipeline { pipeline: id }) && final(self)@ == (RenderStateView { pipeline: Some(id), ..empty_state() }),
    {
        let send = match self.pipeline {
            Some(p) => p != id,
            None => true,
        };
        if send {
            self.clear();
            self.pipeline = Some(id);
            Some(PassCommand::SetPipeline { pipeline: id })
        } else {
            None
        }
    }

    /// Forgets all bindings.
    pub fn clear(&mut self)
        ensures
            final(self)@ == empty_state(),
    {
        self.vertex_buffers = IdMap::new();
        self.index_buffer = None;
        self.bind_groups = IdMap::new();
        self.pipeline = None;
        assert(self@.bind_groups =~= Map::<u32, (u64, Seq<u32>)>::empty());
    }

    pub fn set_scissor_rect(&mut self, x: u32, y: u32, width: u32, height: u32) -> (r: PassCommand)
        ensures
            r == (PassCommand::SetScissorRect { x, y, width, height }),
            final(self)@ == old(self)@,
    {
        PassCommand::SetScissorRect { x, y, width, height }
    }

    pub fn set_push_constants(&mut self, stages: ShaderStages, offset: u32, data: &[u8]) -> (r: PassCommand)
        ensures
            r matches PassCommand::SetPushConstants { stages: s, offset: o, data: d } && s == stages && o == offset
                && d@ == data@,
            final(self)@ == old(self)@,
    {
        PassCommand::SetPushConstants { stages, offset, data: copy_bytes(data) }
    }

    pub fn set_stencil_reference(&mut self, reference: u32) -> (r: PassCommand)
        ensures
            r == (PassCommand::SetStencilReference { reference }),
            final(self)@ == old(self)@,
    {
        PassCommand::SetStencilReference { reference }
    }

    pub fn draw(&mut self, vertices: Range<u32>, instances: Range<u32>) -> (r: PassCommand)
        ensures
            r == (PassCommand::Draw { vertices, instances }),
            final(self)@ == old(self)@,
    {
        PassCommand::Draw { vertices, instances }
    }

    pub fn draw_indexed(&mut self, indices: Range<u32>, start: i32, instances: Range<u32>) -> (r: PassCommand)
        ensures
            r == (PassCommand::DrawIndexed { indices, base_vertex: start, instances }),
            final(self)@ == old(self)@,
    {
        PassCommand::DrawIndexed { indices, base_vertex: start, instances }
    }

    pub fn draw_indirect(&mut self, buffer: &Buffer, offset: u64) -> (r: PassCommand)
        ensures
            r == (PassCommand::DrawIndirect { buffer: buffer@.id, offset }),
            final(self)@ == old(self)@,
    {
        PassCommand::DrawIndirect { buffer: buffer.inner(), offset }
    }

    pub fn draw_indexed_indirect(&mut self, buffer: &Buffer, offset: u64) -> (r: PassCommand)
        ensures
            r == (PassCommand::DrawIndexedIndirect { buffer: buffer@.id, offset }),
            final(self)@ == old(self)@,
    {
        PassCommand::DrawIndexedIndirect { buffer: buffer.inner(), offset }
    }

    pub fn multi_draw_indirect(&mut self, buffer: &Buffer, offset: u64, count: u32) -> (r: PassCommand)
        ensures
            r == (PassCommand::MultiDrawIndirect { buffer: buffer@.id, offset, count }),
            final(self)@ == old(self)@,
    {
        PassCommand::MultiDrawIndirect { buffer: buffer.inner(), offset, count }
    }

    pub fn multi_draw_indirect_count(
        &mut self,
        buffer: &Buffer,
        offset: u64,
        count_buffer: &Buffer,
        count_offset: u64,
        max_count: u32,
    ) -> (r: PassCommand)
        ensures
            r == (PassCommand::MultiDrawIndirectCount {
                buffer: buffer@.id,
                offset,
                count_buffer: count_buffer@.id,
                count_offset,
                max_count,
            }),
            final(self)@ == old(self)@,
    {
        PassCommand::MultiDrawIndirectCount {
            buffer: buffer.inner(),
            offset,
            count_buffer: count_buffer.inner(),
            count_offset,
            max_count,
        }
    }

    pub fn multi_draw_indexed_indirect(&mut self, buffer: &Buffer, offset: u64, count: u32) -> (r: PassCommand)
        ensures
            r == (PassCommand::MultiDrawIndexedIndirect { buffer: buffer@.id, offset, count }),
            final(self)@ == old(self)@,
    {
        PassCommand::MultiDrawIndexedIndirect { buffer: buffer.inner(), offset, count }
    }

    pub fn multi_draw_indexed_indirect_count(
        &mut self,
        buffer: &Buffer,
        offset: u64,
        count_buffer: &Buffer,
        count_offset: u64,
        max_count: u32,
    ) -> (r: PassCommand)
        ensures
            r == (PassCommand::MultiDrawIndexedIndirectCount {
                buffer: buffer@.id,
                offset,
                count_buffer: count_buffer@.id,
                count_offset,
                max_count,
            }),
            final(self)@ == old(self)@,
    {
        PassCommand::MultiDrawIndexedIndirectCount {
            buffer: buffer.inner(),
            offset,
            count_buffer: count_buffer.inner(),
            count_offset,
            max_count,
        }
    }

    pub fn push_debug_group(&mut self, label: &str) -> (r: PassCommand)
        ensures
            r matches PassCommand::PushDebugGroup { label: l } && l@ == label@,
            final(self)@ == old(self)@,
    {
        PassCommand::PushDebugGroup { label: label.to_string() }
    }

    pub fn pop_debug_group(&mut self) -> (r: PassCommand)
        ensures
            r == PassCommand::PopDebugGroup,
            final(self)@ == old(self)@,
    {
        PassCommand::PopDebugGroup
    }

    pub fn begin_occlusion_query(&mut self, query_index: u32) -> (r: PassCommand)
        ensures
            r == (PassCommand::BeginOcclusionQuery { query_index }),
            final(self)@ == old(self)@,
    {
        PassCommand::BeginOcclusionQuery { query_index }
    }

    pub fn end_occlusion_query(&mut self) -> (r: PassCommand)
        ensures
            r == PassCommand::EndOcclusionQuery,
            final(self)@ == old(self)@,
    {
        PassCommand::EndOcclusionQuery
    }

    pub fn begin_pipeline_statistics_query(&mut self, query_set: u64, query_index: u32) -> (r: PassCommand)
        ensures
            r == (PassCommand::BeginPipelineStatisticsQuery { query_set, query_index }),
            final(self)@ == old(self)@,
    {
        PassCommand::BeginPipelineStatisticsQuery { query_set, query_index }
    }

    pub fn end_pipeline_statistics_query(&mut self) -> (r: PassCommand)
        ensures
            r == PassCommand::EndPipelineStatisticsQuery,
            final(self)@ == old(self)@,
    {
        PassCommand::EndPipelineStatisticsQuery
    }

    pub fn execute_bundles(&mut self, bundles: Vec<u64>) -> (r: PassCommand)
        ensures
            r == (PassCommand::ExecuteBundles { bundles }),
            final(self)@ == old(self)@,
    {
        PassCommand::ExecuteBundles { bundles }
    }

    pub fn insert_debug_marker(&mut self, label: &str) -> (r: PassCommand)
        ensures
            r matches PassCommand::InsertDebugMarker { label: l } && l@ == label@,
            final(self)@ == old(self)@,
    {
        PassCommand::InsertDebugMarker { label: label.to_string() }
    }

    pub fn write_timestamp(&mut self, query_set: u64, query_index: u32) -> (r: PassCommand)
        ensures
            r == (PassCommand::WriteTimestamp { query_set, query_index }),
            final(self)@ == old(self)@,
    {
        PassCommand::WriteTimestamp { query_set, query_index }
    }
}

/// Binding the same vertex buffer, index buffer or pipeline a second time
/// sends nothing and changes nothing.
pub proof fn lemma_second_binding_sends_nothing(s: RenderStateView, slot: u32, slice: BufferSliceId, pipeline: u64)
    ensures
        vertex_step(vertex_step(s, slot, slice).0, slot, slice) == (vertex_step(s, slot, slice).0, Seq::<
            PassCommandView,
        >::empty()),
        index_step(index_step(s, slice).0, slice) == (index_step(s, slice).0, Seq::<PassCommandView>::empty()),
        pipeline_step(pipeline_step(s, pipeline).0, pipeline) == (pipeline_step(s, pipeline).0, Seq::<
            PassCommandView,
        >::empty()),
{
}

/// Setting a new pipeline forgets every binding, so the same vertex buffer
/// is sent again after it.
pub proof fn lemma_pipeline_resets_bindings(s: RenderStateView, pipeline: u64, slot: u32, slice: BufferSliceId)
    requires
        s.pipeline != Some(pipeline),
    ensures
        vertex_step(pipeline_step(s, pipeline).0, slot, slice).1 == seq![
            PassCommandView::SetVertexBuffer { slot, slice },
        ],
{
}

} // verus!
