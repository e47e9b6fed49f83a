use crate::device::RenderDevice;
use crate::index::{IndexBuffer, Indices};
use crate::vertex::{VertexBuffer, VertexBufferView};
use vstd::prelude::*;

verus! {

/// How vertices are assembled into primitives.
#[derive(Clone, Copy, PartialEq, Eq, Structural, Debug, Hash)]
pub enum MeshTopology {
    PointList,
    LineList,
    LineStrip,
    TriangleList,
    TriangleStrip,
}

impl Default for MeshTopology {
    fn default() -> (r: MeshTopology)
        ensures
            r == MeshTopology::TriangleList,
    {
        MeshTopology::TriangleList
    }
}

/// The format of one vertex attribute.
#[derive(Clone, Copy, PartialEq, Eq, Structural, Debug, Hash)]
pub enum VertexFormat {
    Float32,
    Float32x2,
    Float32x3,
    Float32x4,
}

/// Whether a vertex buffer advances per vertex or per instance.
#[derive(Clone, Copy, PartialEq, Eq, Structural, Debug, Hash)]
pub enum VertexStepMode {
    Vertex,
    Instance,
}

/// One attribute of a vertex buffer layout.
#[derive(Clone, Copy, PartialEq, Eq, Structural, Debug, Hash)]
pub struct VertexAttributeDesc {
    pub format: VertexFormat,
    pub offset: u64,
    pub shader_location: u32,
}

/// How a vertex buffer is read: the bytes per element, the step mode and
/// the attributes.
#[derive(Clone, PartialEq, Eq, Debug, Hash)]
pub struct VertexBufferLayout {
    pub array_stride: u64,
    pub step_mode: VertexStepMode,
    pub attributes: Vec<VertexAttributeDesc>,
}

/// A kind of mesh attribute.
#[derive(Clone, Copy, PartialEq, Eq, Structural, Debug, Hash)]
pub enum MeshAttributeKind {
    Position,
    Normal,
    TexCoord0,
    TexCoord1,
    Tangent,
    Color,
}

/// Bytes per element of an attribute: three, two or four 32-bit floats.
pub open spec fn spec_attribute_size(kind: MeshAttributeKind) -> usize {
    match kind {
        MeshAttributeKind::Position => 12,
        MeshAttributeKind::Normal => 12,
        MeshAttributeKind::TexCoord0 => 8,
        MeshAttributeKind::TexCoord1 => 8,
        MeshAttributeKind::Tangent => 16,
        MeshAttributeKind::Color => 16,
    }
}

/// The vertex format of an attribute.
pub open spec fn spec_attribute_format(kind: MeshAttributeKind) -> VertexFormat {
    match kind {
        MeshAttributeKind::Position => VertexFormat::Float32x3,
        MeshAttributeKind::Normal => VertexFormat::Float32x3,
        MeshAttributeKind::TexCoord0 => VertexFormat::Float32x2,
        MeshAttributeKind::TexCoord1 => VertexFormat::Float32x2,
        MeshAttributeKind::Tangent => VertexFormat::Float32x4,
        MeshAttributeKind::Color => VertexFormat::Float32x4,
    }
}

impl MeshAttributeKind {
    pub fn size(&self) -> (r: usize)
        ensures
            r == spec_attribute_size(*self),
    {
        match self {
            MeshAttributeKind::Position => 12,
            MeshAttributeKind::Normal => 12,
            MeshAttributeKind::TexCoord0 => 8,
            MeshAttributeKind::TexCoord1 => 8,
            MeshAttributeKind::Tangent => 16,
            MeshAttributeKind::Color => 16,
        }
    }

    pub fn format(&self) -> (r: VertexFormat)
        ensures
            r == spec_attribute_format(*self),
    {
        match self {
            MeshAttributeKind::Position => VertexFormat::Float32x3,
            MeshAttributeKind::Normal => VertexFormat::Float32x3,
            MeshAttributeKind::TexCoord0 => VertexFormat::Float32x2,
            MeshAttributeKind::TexCoord1 => VertexFormat::Float32x2,
            MeshAttributeKind::Tangent => VertexFormat::Float32x4,
            MeshAttributeKind::Color => VertexFormat::Float32x4,
        }
    }

    /// The kind after this one, in declaration order; none after `Color`.
    pub fn next_kind(&self) -> (r: Option<MeshAttributeKind>)
        ensures
            r == match *self {
                MeshAttributeKind::Position => Some(MeshAttributeKind::Normal),
                MeshAttributeKind::Normal => Some(MeshAttributeKind::TexCoord0),
                MeshAttributeKind::TexCoord0 => Some(MeshAttributeKind::TexCoord1),
                MeshAttributeKind::TexCoord1 => Some(MeshAttributeKind::Tangent),
                MeshAttributeKind::Tangent => Some(MeshAttributeKind::Color),
                MeshAttributeKind::Color => None,
            },
    {
        match self {
            MeshAttributeKind::Position => Some(MeshAttributeKind::Normal),
            MeshAttributeKind::Normal => Some(MeshAttributeKind::TexCoord0),
            MeshAttributeKind::TexCoord0 => Some(MeshAttributeKind::TexCoord1),
            MeshAttributeKind::TexCoord1 => Some(MeshAttributeKind::Tangent),
            MeshAttributeKind::Tangent => Some(MeshAttributeKind::Color),
            MeshAttributeKind::Color => None,
        }
    }
}

/// One vertex buffer per attribute: attribute `i` is read from buffer `i`
/// at offset 0 and shader location `i`, with the attribute's size as stride.
pub fn vertex_buffer_layouts(step_mode: VertexStepMode, layout: &[MeshAttributeKind]) -> (r: Vec<VertexBufferLayout>)
    requires
        layout@.len() <= u32::MAX,
    ensures
        r@.len() == layout@.len(),
        forall|i: int|
            0 <= i < layout@.len() ==> {
                &&& (#[trigger] r@[i]).array_stride == spec_attribute_size(layout@[i]) as u64
                &&& r@[i].step_mode == step_mode
                &&& r@[i].attributes@ == seq![
                    VertexAttributeDesc {
                        format: spec_attribute_format(layout@[i]),
                        offset: 0,
                        shader_location: i as u32,
                    },
                ]
            },
{
    let mut out: Vec<VertexBufferLayout> = Vec::new();
    let mut i: usize = 0;
    while i < layout.len()
        invariant
            i <= layout@.len() <= u32::MAX,
            out@.len() == i,
            forall|j: int|
                0 <= j < i ==> {
                    &&& (#[trigger] out@[j]).array_stride == spec_attribute_size(layout@[j]) as u64
                    &&& out@[j].step_mode == step_mode
                    &&& out@[j].attributes@ == seq![
                        VertexAttributeDesc {
                            format: spec_attribute_format(layout@[j]),
                            offset: 0,
                            shader_location: j as u32,
                        },
                    ]
                },
        decreases layout@.len() - i,
    {
        let kind = &layout[i];
        let mut attributes: Vec<VertexAttributeDesc> = Vec::new();
        attributes.push(VertexAttributeDesc { format: kind.format(), offset: 0, shader_location: i as u32 });
        out.push(VertexBufferLayout { array_stride: kind.size() as u64, step_mode, attributes });
        proof {
            assert(out@[i as int].attributes@ =~= seq![
                VertexAttributeDesc {
                    format: spec_attribute_format(layout@[i as int]),
                    offset: 0,
                    shader_location: i as u32,
                },
            ]);
        }
        i = i + 1;
    }
    out
}

/// A part of a mesh: a run of vertices and a run of indices.
#[derive(Clone, Copy, PartialEq, Eq, Structural, Debug, Hash)]
pub struct SubMesh {
    pub start_vertex: u64,
    pub vertex_count: u64,
    pub start_index: u64,
    pub index_count: u64,
}

impl SubMesh {
    pub fn new(start_vertex: u64, vertex_count: u64, start_index: u64, index_count: u64) -> (r: SubMesh)
        ensures
            r == (SubMesh { start_vertex, vertex_count, start_index, index_count }),
    {
        SubMesh { start_vertex, vertex_count, start_index, index_count }
    }
}

/// The attributes of a mesh's vertices, in the order they are interleaved.
#[derive(Clone, PartialEq, Eq, Debug)]
pub struct MeshLayout(Vec<MeshAttributeKind>);

impl View for MeshLayout {
    type V = Seq<MeshAttributeKind>;

    closed spec fn view(&self) -> Seq<MeshAttributeKind> {
        self.0@
    }
}

impl MeshLayout {
    /// The layout of these attributes.
    pub fn new(attributes: Vec<MeshAttributeKind>) -> (r: MeshLayout)
        ensures
            r@ == attributes@,
    {
        MeshLayout(attributes)
    }

    /// The layout of a copy of these attributes.
    pub fn from_slice(attributes: &[MeshAttributeKind]) -> (r: MeshLayout)
        ensures
            r@ == attributes@,
    {
        let mut v: Vec<MeshAttributeKind> = Vec::new();
        let mut i: usize = 0;
        while i < attributes.len()
            invariant
                i <= attributes@.len(),
                v@ == attributes@.subrange(0, i as int),
            decreases attributes@.len() - i,
        {
            v.push(attributes[i]);
            i = i + 1;
            proof {
                assert(v@ =~= attributes@.subrange(0, i as int));
            }
        }
        proof {
            assert(v@ =~= attributes@);
        }
        MeshLayout(v)
    }

    /// The attributes.
    pub fn as_slice(&self) -> (r: &[MeshAttributeKind])
        ensures
            r@ == self@,
    {
        self.0.as_slice()
    }
}

/// A mesh on the GPU: its vertex layout, its vertex buffer and its index
/// buffer, if it has indices.
pub struct RenderMesh {
    layout: MeshLayout,
    vertex_buffer: VertexBuffer,
    index_buffer: Option<IndexBuffer<u32>>,
}

impl RenderMesh {
    pub closed spec fn spec_layout(&self) -> Seq<MeshAttributeKind> {
        self.layout@
    }

    pub closed spec fn spec_vertices(&self) -> VertexBufferView {
        self.vertex_buffer@
    }

    /// The number of indices, when there is an index buffer.
    pub closed spec fn spec_indices(&self) -> Option<u64> {
        match self.index_buffer {
            Some(b) => Some(b.spec_len()),
            None => None,
        }
    }

    /// A mesh of these buffers.
    pub fn new(layout: MeshLayout, vertex_buffer: VertexBuffer, index_buffer: Option<IndexBuffer<u32>>) -> (r:
        RenderMesh)
        ensures
            r.spec_layout() == layout@,
            r.spec_vertices() == vertex_buffer@,
            r.spec_indices() == (match index_buffer {
                Some(b) => Some(b.spec_len()),
                None => None,
            }),
    {
        RenderMesh { layout, vertex_buffer, index_buffer }
    }

    pub fn layout(&self) -> (r: &MeshLayout)
        ensures
            r@ == self.spec_layout(),
    {
        &self.layout
    }

    pub fn vertex_buffer(&self) -> (r: &VertexBuffer)
        ensures
            r@ == self.spec_vertices(),
    {
        &self.vertex_buffer
    }

    pub fn index_buffer(&self) -> (r: Option<&IndexBuffer<u32>>)
        ensures
            match self.spec_indices() {
                Some(n) => r matches Some(b) && b.spec_len() == n,
                None => r.is_none(),
            },
    {
        match &self.index_buffer {
            Some(b) => Some(b),
            None => None,
        }
    }

    /// The number of vertices.
    pub fn vertex_count(&self) -> (r: usize)
        ensures
            r == self.spec_vertices().len,
    {
        self.vertex_buffer.len()
    }

    /// The number of indices; 0 without an index buffer.
    pub fn index_count(&self) -> (r: u64)
        ensures
            r == (match self.spec_indices() {
                Some(n) => n,
                None => 0,
            }),
    {
        match &self.index_buffer {
            Some(b) => b.len(),
            None => 0,
        }
    }

    /// Replaces the vertex buffer.
    pub(crate) fn set_vertex_buffer(&mut self, vertex_buffer: VertexBuffer)
        ensures
            final(self).spec_vertices() == vertex_buffer@,
            final(self).spec_layout() == old(self).spec_layout(),
            final(self).spec_indices() == old(self).spec_indices(),
    {
        self.vertex_buffer = vertex_buffer;
    }

    /// Writes `indices` at the start of the index buffer, if there is one;
    /// whether there was.
    pub(crate) fn write_indices(&mut self, device: &mut RenderDevice, indices: &Indices<u32>) -> (r: bool)
        requires
            indices@.len() * 4 <= u64::MAX,
        ensures
            r == old(self).spec_indices().is_some(),
            final(self).spec_vertices() == old(self).spec_vertices(),
            final(self).spec_layout() == old(self).spec_layout(),
            final(self).spec_indices() == old(self).spec_indices(),
            r ==> crate::buffer::recorded_one(old(device)@, final(device)@),
            !r ==> final(device)@ == old(device)@,
    {
        match &mut self.index_buffer {
            Some(b) => {
                b.update(device, 0, indices);
                true
            },
            None => false,
        }
    }

    /// The part of the mesh that is all of it: every vertex and every index.
    pub fn sub_mesh(&self) -> (r: SubMesh)
        ensures
            r == (SubMesh {
                start_vertex: 0,
                vertex_count: self.spec_vertices().len as u64,
                start_index: 0,
                index_count: match self.spec_indices() {
                    Some(n) => n,
                    None => 0,
                },
            }),
    {
        SubMesh::new(0, self.vertex_count() as u64, 0, self.index_count())
    }
}

/// The bytes a vertex of this format takes: 4 per 32-bit float component.
pub open spec fn format_size(format: VertexFormat) -> nat {
    match format {
        VertexFormat::Float32 => 4,
        VertexFormat::Float32x2 => 8,
        VertexFormat::Float32x3 => 12,
        VertexFormat::Float32x4 => 16,
    }
}

/// Every mesh attribute is read in full: its vertex format takes exactly
/// the bytes the attribute stores per vertex.
pub proof fn lemma_attribute_format_fits(kind: MeshAttributeKind)
    ensures
        format_size(spec_attribute_format(kind)) == spec_attribute_size(kind),
{
}

} // verus!
