use crate::asset::ReadWrite;
use crate::device::RenderDevice;
use crate::flags::BufferUsages;
use crate::index::{IndexBuffer, Indices};
use crate::mesh::{spec_attribute_size, MeshAttributeKind, MeshLayout, MeshTopology, RenderMesh, SubMesh};
use crate::vertex::VertexBuffer;
use vstd::prelude::*;

verus! {

/// The values of one attribute of a mesh's vertices, as their bytes: whole
/// elements of the attribute's size.
pub struct MeshAttribute {
    kind: MeshAttributeKind,
    data: Vec<u8>,
}

/// An attribute as a value.
pub struct MeshAttributeView {
    pub kind: MeshAttributeKind,
    pub data: Seq<u8>,
}

impl View for MeshAttribute {
    type V = MeshAttributeView;

    closed spec fn view(&self) -> MeshAttributeView {
        MeshAttributeView { kind: self.kind, data: self.data@ }
    }
}

/// The number of elements an attribute holds.
pub open spec fn attribute_len(a: MeshAttributeView) -> int {
    a.data.len() as int / (spec_attribute_size(a.kind) as int)
}

/// The bytes of element `i` of an attribute.
pub open spec fn element_bytes(a: MeshAttributeView, i: int) -> Seq<u8> {
    let size = spec_attribute_size(a.kind) as int;
    a.data.subrange(i * size, (i + 1) * size)
}

impl MeshAttribute {
    #[verifier::type_invariant]
    spec fn inv(&self) -> bool {
        self.data@.len() as int % (spec_attribute_size(self.kind) as int) == 0
    }

    /// An attribute of `kind` holding the elements whose bytes are `data`.
    pub fn new(kind: MeshAttributeKind, data: Vec<u8>) -> (r: MeshAttribute)
        requires
            data@.len() as int % (spec_attribute_size(kind) as int) == 0,
        ensures
            r@ == (MeshAttributeView { kind, data: data@ }),
    {
        MeshAttribute { kind, data }
    }

    pub fn kind(&self) -> (r: MeshAttributeKind)
        ensures
            r == self@.kind,
    {
        self.kind
    }

    /// The number of elements.
    pub fn len(&self) -> (r: usize)
        ensures
            r == attribute_len(self@),
    {
        self.data.len() / self.kind.size()
    }

    /// Appends the elements of `other`, when it is of the same kind.
    pub fn extend(&mut self, other: &MeshAttribute)
        requires
            old(self)@.data.len() + other@.data.len() <= usize::MAX,
        ensures
            final(self)@.kind == old(self)@.kind,
            final(self)@.data == (if other@.kind == old(self)@.kind {
                old(self)@.data + other@.data
            } else {
                old(self)@.data
            }),
    {
        proof {
            use_type_invariant(&*self);
            use_type_invariant(other);
        }
        if self.kind == other.kind {
            let mut taken = MeshAttribute { kind: self.kind, data: Vec::new() };
            proof {
                assert(0int % (spec_attribute_size(self.kind) as int) == 0);
            }
            std::mem::swap(&mut taken, self);
            let MeshAttribute { kind, mut data } = taken;
            let ghost before = data@;
            let mut i: usize = 0;
            while i < other.data.len()
                invariant
                    i <= other.data@.len(),
                    data@ == before + other.data@.subrange(0, i as int),
                    before.len() + other.data@.len() <= usize::MAX,
                decreases other.data@.len() - i,
            {
                data.push(other.data[i]);
                i = i + 1;
                proof {
                    assert(data@ =~= before + other.data@.subrange(0, i as int));
                }
            }
            proof {
                assert(other.data@.subrange(0, i as int) =~= other.data@);
                let size = spec_attribute_size(kind) as int;
                vstd::arithmetic::div_mod::lemma_mod_adds(before.len() as int, other.data@.len() as int, size);
            }
            *self = MeshAttribute { kind, data };
        }
    }

    /// Whether there is no element.
    pub fn is_empty(&self) -> (r: bool)
        ensures
            r == (self@.data.len() == 0),
    {
        self.data.len() == 0
    }

    /// The bytes of the elements `start` to `end` (excluded).
    pub fn data(&self, start: usize, end: usize) -> (r: &[u8])
        requires
            start <= end <= attribute_len(self@),
        ensures
            r@ == self@.data.subrange(
                start * spec_attribute_size(self@.kind),
                end * spec_attribute_size(self@.kind),
            ),
    {
        proof {
            use_type_invariant(self);
        }
        let size = self.kind.size();
        let len = self.data.len();
        proof {
            let n = len as int;
            vstd::arithmetic::div_mod::lemma_fundamental_div_mod(n, size as int);
            assert(start * size <= end * size) by (nonlinear_arith)
                requires
                    start <= end,
                    size > 0,
            ;
            assert(end * size <= n) by (nonlinear_arith)
                requires
                    end <= n / (size as int),
                    size > 0,
                    n == size * (n / (size as int)) + n % (size as int),
                    n % (size as int) >= 0,
            ;
        }
        vstd::slice::slice_subrange(self.data.as_slice(), start * size, end * size)
    }

    /// The bytes per element.
    pub fn size(&self) -> (r: usize)
        ensures
            r == spec_attribute_size(self@.kind),
    {
        self.kind.size()
    }

    /// Drops every element.
    pub fn clear(&mut self)
        ensures
            final(self)@ == (MeshAttributeView { kind: old(self)@.kind, data: Seq::empty() }),
    {
        proof {
            assert(0int % (spec_attribute_size(self.kind) as int) == 0);
        }
        self.data = Vec::new();
    }
}

/// The dirty flag of indices.
pub const MESH_DIRTY_INDICES: u32 = 128;

/// Every dirty flag: each attribute's, the indices' and the bounds'.
pub const MESH_DIRTY_ALL: u32 = 510;

/// The flags an attribute change sets: its own, and for positions the bounds too.
pub open spec fn dirty_bits(kind: MeshAttributeKind) -> u32 {
    match kind {
        MeshAttributeKind::Position => 258,
        MeshAttributeKind::Normal => 4,
        MeshAttributeKind::Tangent => 8,
        MeshAttributeKind::TexCoord0 => 16,
        MeshAttributeKind::TexCoord1 => 32,
        MeshAttributeKind::Color => 64,
    }
}

/// The flag that says an attribute is dirty.
pub open spec fn dirty_flag(kind: MeshAttributeKind) -> u32 {
    match kind {
        MeshAttributeKind::Position => 2,
        MeshAttributeKind::Normal => 4,
        MeshAttributeKind::Tangent => 8,
        MeshAttributeKind::TexCoord0 => 16,
        MeshAttributeKind::TexCoord1 => 32,
        MeshAttributeKind::Color => 64,
    }
}

fn attribute_dirty_bits(kind: MeshAttributeKind) -> (r: u32)
    ensures
        r == dirty_bits(kind),
{
    match kind {
        MeshAttributeKind::Position => 258,
        MeshAttributeKind::Normal => 4,
        MeshAttributeKind::Tangent => 8,
        MeshAttributeKind::TexCoord0 => 16,
        MeshAttributeKind::TexCoord1 => 32,
        MeshAttributeKind::Color => 64,
    }
}

/// The position of the first attribute of `kind`, or -1.
pub open spec fn kind_index(attributes: Seq<MeshAttributeView>, kind: MeshAttributeKind) -> int
    decreases attributes.len(),
{
    if attributes.len() == 0 {
        -1
    } else {
        let k = kind_index(attributes.drop_last(), kind);
        if k >= 0 {
            k
        } else if attributes.last().kind == kind {
            attributes.len() - 1
        } else {
            -1
        }
    }
}

/// `kind_index` finds the first attribute of the kind.
pub proof fn lemma_kind_index(attributes: Seq<MeshAttributeView>, kind: MeshAttributeKind)
    ensures
        -1 <= kind_index(attributes, kind) < attributes.len(),
        kind_index(attributes, kind) >= 0 ==> attributes[kind_index(attributes, kind)].kind == kind,
        forall|k: int|
            0 <= k < attributes.len() && (kind_index(attributes, kind) < 0 || k < kind_index(attributes, kind))
                ==> #[trigger] attributes[k].kind != kind,
    decreases attributes.len(),
{
    if attributes.len() > 0 {
        lemma_kind_index(attributes.drop_last(), kind);
        assert forall|k: int| 0 <= k < attributes.len() - 1 implies #[trigger] attributes[k] == attributes.drop_last()[k] by {}
    }
}

/// The views of a list of attributes.
pub open spec fn attribute_views(s: Seq<MeshAttribute>) -> Seq<MeshAttributeView> {
    s.map_values(|a: MeshAttribute| a@)
}

/// The attributes with their kinds kept and their data emptied.
pub open spec fn emptied(s: Seq<MeshAttributeView>) -> Seq<MeshAttributeView> {
    Seq::new(s.len(), |k: int| MeshAttributeView { kind: s[k].kind, data: Seq::empty() })
}

/// The views of a list keep its length and its elements' views.
pub proof fn lemma_attribute_views(s: Seq<MeshAttribute>)
    ensures
        attribute_views(s).len() == s.len(),
        forall|k: int| 0 <= k < s.len() ==> #[trigger] attribute_views(s)[k] == s[k]@,
{
}

/// The abstract state of a mesh.
pub struct MeshView {
    pub topology: MeshTopology,
    pub attributes: Seq<MeshAttributeView>,
    pub indices: Option<Seq<u32>>,
    pub read_write: ReadWrite,
    pub sub_meshes: Seq<SubMesh>,
    pub dirty: u32,
}

/// A mesh: its topology, its vertex attributes (at most one of each kind),
/// its indices, whether its data stays readable once on the GPU, its parts,
/// and which of its data changed.
pub struct Mesh {
    topology: MeshTopology,
    attributes: Vec<MeshAttribute>,
    indices: Option<Indices<u32>>,
    read_write: ReadWrite,
    sub_meshes: Vec<SubMesh>,
    dirty: u32,
}

impl View for Mesh {
    type V = MeshView;

    closed spec fn view(&self) -> MeshView {
        MeshView {
            topology: self.topology,
            attributes: attribute_views(self.attributes@),
            indices: match self.indices {
                Some(i) => Some(i@),
                None => None,
            },
            read_write: self.read_write,
            sub_meshes: self.sub_meshes@,
            dirty: self.dirty,
        }
    }
}

/// Every attribute holds whole elements.
pub open spec fn whole_elements(attributes: Seq<MeshAttributeView>) -> bool {
    forall|k: int|
        0 <= k < attributes.len() ==> (#[trigger] attributes[k]).data.len() as int % (spec_attribute_size(
            attributes[k].kind,
        ) as int) == 0
}

impl Mesh {
    #[verifier::type_invariant]
    spec fn inv(&self) -> bool {
        whole_elements(attribute_views(self.attributes@))
    }

    /// An empty mesh of this topology, not readable once on the GPU.
    pub fn new(topology: MeshTopology) -> (r: Mesh)
        ensures
            r@ == (MeshView {
                topology,
                attributes: Seq::empty(),
                indices: None,
                read_write: ReadWrite::Disabled,
                sub_meshes: Seq::empty(),
                dirty: 0,
            }),
    {
        let r = Mesh {
            topology,
            attributes: Vec::new(),
            indices: None,
            read_write: ReadWrite::Disabled,
            sub_meshes: Vec::new(),
            dirty: 0,
        };
        assert(attribute_views(r.attributes@) =~= Seq::<MeshAttributeView>::empty());
        r
    }

    /// The same mesh with `attribute` added (see `add_attribute`).
    pub fn with_attribute(self, attribute: MeshAttribute) -> (r: Mesh)
        ensures
            r@ == spec_add_attribute(self@, attribute@),
    {
        let mut m = self;
        m.add_attribute(attribute);
        m
    }

    pub fn with_read_write(self, read_write: ReadWrite) -> (r: Mesh)
        ensures
            r@ == (MeshView { read_write, ..self@ }),
    {
        let mut m = self;
        proof {
            use_type_invariant(&m);
        }
        m.read_write = read_write;
        m
    }

    pub fn topology(&self) -> (r: MeshTopology)
        ensures
            r == self@.topology,
    {
        self.topology
    }

    pub fn attributes(&self) -> (r: &[MeshAttribute])
        ensures
            attribute_views(r@) == self@.attributes,
    {
        self.attributes.as_slice()
    }

    /// The position of the first attribute of `kind`.
    pub fn attribute_index(&self, kind: MeshAttributeKind) -> (r: Option<usize>)
        ensures
            match r {
                Some(i) => i == kind_index(self@.attributes, kind) && i < self@.attributes.len(),
                None => kind_index(self@.attributes, kind) == -1,
            },
    {
        proof {
            lemma_kind_index(self@.attributes, kind);
            lemma_attribute_views(self.attributes@);
        }
        let mut i: usize = 0;
        while i < self.attributes.len()
            invariant
                i <= self.attributes@.len(),
                self@.attributes == attribute_views(self.attributes@),
                forall|k: int| 0 <= k < i ==> #[trigger] self@.attributes[k].kind != kind,
                -1 <= kind_index(self@.attributes, kind) < self@.attributes.len(),
                kind_index(self@.attributes, kind) >= 0 ==> self@.attributes[kind_index(self@.attributes, kind)].kind
                    == kind,
                forall|k: int|
                    0 <= k < self@.attributes.len() && (kind_index(self@.attributes, kind) < 0 || k < kind_index(
                        self@.attributes,
                        kind,
                    )) ==> #[trigger] self@.attributes[k].kind != kind,
            decreases self.attributes@.len() - i,
        {
            proof {
                assert(self@.attributes[i as int] == self.attributes@[i as int]@);
            }
            if self.attributes[i].kind() == kind {
                return Some(i);
            }
            i = i + 1;
        }
        None
    }

    /// The first attribute of `kind`.
    pub fn attribute(&self, kind: MeshAttributeKind) -> (r: Option<&MeshAttribute>)
        ensures
            match r {
                Some(a) => kind_index(self@.attributes, kind) >= 0 && a@ == self@.attributes[kind_index(
                    self@.attributes,
                    kind,
                )],
                None => kind_index(self@.attributes, kind) == -1,
            },
    {
        proof {
            lemma_attribute_views(self.attributes@);
        }
        match self.attribute_index(kind) {
            Some(i) => Some(&self.attributes[i]),
            None => None,
        }
    }

    pub fn sub_meshes(&self) -> (r: &[SubMesh])
        ensures
            r@ == self@.sub_meshes,
    {
        self.sub_meshes.as_slice()
    }

    /// The part at `index`, if there is one.
    pub fn sub_mesh(&self, index: usize) -> (r: Option<&SubMesh>)
        ensures
            match r {
                Some(s) => index < self@.sub_meshes.len() && *s == self@.sub_meshes[index as int],
                None => index >= self@.sub_meshes.len(),
            },
    {
        if index < self.sub_meshes.len() {
            Some(&self.sub_meshes[index])
        } else {
            None
        }
    }

    /// The dirty flags.
    pub fn dirty(&self) -> (r: u32)
        ensures
            r == self@.dirty,
    {
        self.dirty
    }

    pub fn indices(&self) -> (r: Option<&Indices<u32>>)
        ensures
            match self@.indices {
                Some(s) => r matches Some(i) && i@ == s,
                None => r.is_none(),
            },
    {
        match &self.indices {
            Some(i) => Some(i),
            None => None,
        }
    }

    pub fn read_write(&self) -> (r: ReadWrite)
        ensures
            r == self@.read_write,
    {
        self.read_write
    }

    /// Marks the data of an attribute of `kind` changed.
    pub fn attribute_dirty(&mut self, kind: MeshAttributeKind)
        ensures
            final(self)@ == (MeshView { dirty: old(self)@.dirty | dirty_bits(kind), ..old(self)@ }),
    {
        proof {
            use_type_invariant(&*self);
        }
        self.dirty = self.dirty | attribute_dirty_bits(kind);
    }

    /// Whether the data of an attribute of `kind` changed.
    pub fn is_attribute_dirty(&self, kind: MeshAttributeKind) -> (r: bool)
        ensures
            r == (self@.dirty & dirty_flag(kind) == dirty_flag(kind)),
    {
        let flag: u32 = match kind {
            MeshAttributeKind::Position => 2,
            MeshAttributeKind::Normal => 4,
            MeshAttributeKind::Tangent => 8,
            MeshAttributeKind::TexCoord0 => 16,
            MeshAttributeKind::TexCoord1 => 32,
            MeshAttributeKind::Color => 64,
        };
        self.dirty & flag == flag
    }

    /// Sets the attribute of `attribute`'s kind: the first of that kind is
    /// replaced in place, else it goes last. Its flags are set.
    pub fn add_attribute(&mut self, attribute: MeshAttribute)
        ensures
            final(self)@ == spec_add_attribute(old(self)@, attribute@),
    {
        proof {
            use_type_invariant(&*self);
            use_type_invariant(&attribute);
            lemma_kind_index(self@.attributes, attribute@.kind);
        }
        let kind = attribute.kind();
        let pos = self.attribute_index(kind);
        let mut attributes: Vec<MeshAttribute> = Vec::new();
        std::mem::swap(&mut attributes, &mut self.attributes);
        let ghost before = attribute_views(attributes@);
        match pos {
            Some(i) => {
                attributes.set(i, attribute);
            },
            None => {
                attributes.push(attribute);
            },
        }
        proof {
            let after = attribute_views(attributes@);
            match pos {
                Some(i) => {
                    assert(after =~= before.update(i as int, attribute@));
                },
                None => {
                    assert(after =~= before.push(attribute@));
                },
            }
            assert(whole_elements(after)) by {
                assert forall|k: int| 0 <= k < after.len() implies (#[trigger] after[k]).data.len() as int
                    % (spec_attribute_size(after[k].kind) as int) == 0 by {
                    if k < before.len() && (pos.is_none() || k != pos.unwrap()) {
                        assert(after[k] == before[k]);
                    }
                }
            }
        }
        self.attributes = attributes;
        proof {
            use_type_invariant(&*self);
        }
        self.dirty = self.dirty | attribute_dirty_bits(kind);
    }

    /// Takes out the first attribute of `kind`, if any; its flags are set either way.
    pub fn remove_attribute(&mut self, kind: MeshAttributeKind) -> (r: Option<MeshAttribute>)
        ensures
            ({
                let i = kind_index(old(self)@.attributes, kind);
                &&& final(self)@ == (MeshView {
                    attributes: if i >= 0 {
                        old(self)@.attributes.remove(i)
                    } else {
                        old(self)@.attributes
                    },
                    dirty: old(self)@.dirty | dirty_bits(kind),
                    ..old(self)@
                })
                &&& match r {
                    Some(a) => i >= 0 && a@ == old(self)@.attributes[i],
                    None => i == -1,
                }
            }),
    {
        proof {
            use_type_invariant(&*self);
        }
        let pos = self.attribute_index(kind);
        proof {
            lemma_attribute_views(self.attributes@);
        }
        let removed = match pos {
            Some(i) => {
                let mut attributes: Vec<MeshAttribute> = Vec::new();
                std::mem::swap(&mut attributes, &mut self.attributes);
                let ghost before = attribute_views(attributes@);
                let a = attributes.remove(i);
                proof {
                    let after = attribute_views(attributes@);
                    lemma_attribute_views(attributes@);
                    assert(after =~= before.remove(i as int));
                    assert(whole_elements(after)) by {
                        assert forall|k: int| 0 <= k < after.len() implies (#[trigger] after[k]).data.len() as int
                            % (spec_attribute_size(after[k].kind) as int) == 0 by {
                            if k < i {
                                assert(after[k] == before[k]);
                            } else {
                                assert(after[k] == before[k + 1]);
                            }
                        }
                    }
                }
                self.attributes = attributes;
                Some(a)
            },
            None => None,
        };
        proof {
            use_type_invariant(&*self);
        }
        self.dirty = self.dirty | attribute_dirty_bits(kind);
        removed
    }

    /// Replaces the indices; marks them changed.
    pub fn set_indices(&mut self, indices: Indices<u32>)
        ensures
            final(self)@ == (MeshView {
                indices: Some(indices@),
                dirty: old(self)@.dirty | MESH_DIRTY_INDICES,
                ..old(self)@
            }),
    {
        proof {
            use_type_invariant(&*self);
        }
        self.indices = Some(indices);
        self.dirty = self.dirty | MESH_DIRTY_INDICES;
    }

    /// Appends indices (or sets them when there are none); no flag is set.
    pub fn add_indices(&mut self, indices: Indices<u32>)
        ensures
            final(self)@ == (MeshView {
                indices: Some(
                    match old(self)@.indices {
                        Some(s) => s + indices@,
                        None => indices@,
                    },
                ),
                ..old(self)@
            }),
    {
        proof {
            use_type_invariant(&*self);
        }
        let mut current = None;
        std::mem::swap(&mut current, &mut self.indices);
        match current {
            Some(mut i) => {
                i.extend(indices);
                self.indices = Some(i);
            },
            None => {
                self.indices = Some(indices);
            },
        }
    }

    pub fn add_sub_mesh(&mut self, sub_mesh: SubMesh)
        ensures
            final(self)@ == (MeshView { sub_meshes: old(self)@.sub_meshes.push(sub_mesh), ..old(self)@ }),
    {
        proof {
            use_type_invariant(&*self);
        }
        let mut parts: Vec<SubMesh> = Vec::new();
        std::mem::swap(&mut parts, &mut self.sub_meshes);
        parts.push(sub_mesh);
        self.sub_meshes = parts;
    }

    /// Takes out the part at `index`.
    pub fn remove_sub_mesh(&mut self, index: usize) -> (r: SubMesh)
        requires
            index < old(self)@.sub_meshes.len(),
        ensures
            r == old(self)@.sub_meshes[index as int],
            final(self)@ == (MeshView { sub_meshes: old(self)@.sub_meshes.remove(index as int), ..old(self)@ }),
    {
        proof {
            use_type_invariant(&*self);
        }
        let mut parts: Vec<SubMesh> = Vec::new();
        std::mem::swap(&mut parts, &mut self.sub_meshes);
        let r = parts.remove(index);
        self.sub_meshes = parts;
        r
    }

    /// Empties every attribute, drops the indices and marks everything changed.
    pub fn clear(&mut self)
        ensures
            final(self)@ == (MeshView {
                attributes: emptied(old(self)@.attributes),
                indices: None,
                dirty: MESH_DIRTY_ALL,
                ..old(self)@
            }),
    {
        proof {
            use_type_invariant(&*self);
        }
        let mut attributes: Vec<MeshAttribute> = Vec::new();
        std::mem::swap(&mut attributes, &mut self.attributes);
        let ghost before = attribute_views(attributes@);
        let mut out: Vec<MeshAttribute> = Vec::new();
        let mut i: usize = 0;
        while i < attributes.len()
            invariant
                i <= attributes@.len(),
                before == attribute_views(attributes@),
                attribute_views(out@) == emptied(before.subrange(0, i as int)),
            decreases attributes@.len() - i,
        {
            let kind = attributes[i].kind();
            proof {
                assert(0int % (spec_attribute_size(kind) as int) == 0);
            }
            let ghost out_old = out@;
            out.push(MeshAttribute { kind, data: Vec::new() });
            i = i + 1;
            proof {
                lemma_attribute_views(out_old);
                lemma_attribute_views(out@);
                assert(out@[i - 1]@ == (MeshAttributeView { kind: before[i - 1].kind, data: Seq::empty() }));
                lemma_attribute_views(attributes@);
                let e = emptied(before.subrange(0, i as int));
                let e_old = emptied(before.subrange(0, i - 1));
                assert forall|k: int| 0 <= k < i implies #[trigger] attribute_views(out@)[k] == e[k] by {
                    if k < i - 1 {
                        assert(out@[k] == out_old[k]);
                        assert(attribute_views(out_old)[k] == e_old[k]);
                    }
                }
                assert(attribute_views(out@) =~= e);
            }
        }
        proof {
            assert(before.subrange(0, i as int) =~= before);
            let after = attribute_views(out@);
            assert(whole_elements(after)) by {
                assert forall|k: int| 0 <= k < after.len() implies (#[trigger] after[k]).data.len() as int
                    % (spec_attribute_size(after[k].kind) as int) == 0 by {
                    assert(after[k].data.len() == 0);
                }
            }
        }
        self.attributes = out;
        self.indices = None;
        self.dirty = MESH_DIRTY_ALL;
    }

    /// The number of indices; 0 without indices.
    pub fn index_count(&self) -> (r: usize)
        ensures
            r == match self@.indices {
                Some(s) => s.len(),
                None => 0,
            },
    {
        match &self.indices {
            Some(i) => i.len(),
            None => 0,
        }
    }

    /// The kinds of the attributes, in order.
    pub fn layout(&self) -> (r: MeshLayout)
        ensures
            r@ == self@.attributes.map_values(|a: MeshAttributeView| a.kind),
    {
        let mut kinds: Vec<MeshAttributeKind> = Vec::new();
        let mut i: usize = 0;
        while i < self.attributes.len()
            invariant
                i <= self.attributes@.len(),
                kinds@ == self@.attributes.subrange(0, i as int).map_values(|a: MeshAttributeView| a.kind),
            decreases self.attributes@.len() - i,
        {
            kinds.push(self.attributes[i].kind());
            i = i + 1;
            proof {
                assert(kinds@ =~= self@.attributes.subrange(0, i as int).map_values(|a: MeshAttributeView| a.kind));
            }
        }
        proof {
            assert(self@.attributes.subrange(0, i as int) =~= self@.attributes);
        }
        MeshLayout::new(kinds)
    }
}

/// The mesh after `attribute` was added: the first attribute of its kind is
/// replaced, else it goes last; its flags are set.
pub open spec fn spec_add_attribute(m: MeshView, attribute: MeshAttributeView) -> MeshView {
    let i = kind_index(m.attributes, attribute.kind);
    MeshView {
        attributes: if i >= 0 {
            m.attributes.update(i, attribute)
        } else {
            m.attributes.push(attribute)
        },
        dirty: m.dirty | dirty_bits(attribute.kind),
        ..m
    }
}

/// After an attribute was added, the mesh's attribute of that kind is the
/// one added, and the attribute of every other kind is what it was.
pub proof fn lemma_attribute_after_add(m: MeshView, a: MeshAttributeView, kind: MeshAttributeKind)
    ensures
        ({
            let after = spec_add_attribute(m, a).attributes;
            let i = kind_index(after, kind);
            &&& kind == a.kind ==> i >= 0 && after[i] == a
            &&& kind != a.kind ==> i == kind_index(m.attributes, kind) && (i >= 0 ==> after[i] == m.attributes[i])
        }),
{
    let after = spec_add_attribute(m, a).attributes;
    let ia = kind_index(m.attributes, a.kind);
    lemma_kind_index(m.attributes, a.kind);
    lemma_kind_index(m.attributes, kind);
    lemma_kind_index(after, kind);
    let i = kind_index(after, kind);
    let j = kind_index(m.attributes, kind);
    assert(after.len() >= m.attributes.len());
    assert(forall|k: int| 0 <= k < m.attributes.len() && k != ia ==> #[trigger] after[k] == m.attributes[k]);
    if kind == a.kind {
        let e = if ia >= 0 { ia } else { m.attributes.len() as int };
        assert(after[e] == a);
        if i < 0 || i > e {
            assert(after[e].kind != kind);
        } else if i < e {
            assert(after[i] == m.attributes[i]);
            assert(m.attributes[i].kind != kind);
        }
    } else {
        if j >= 0 {
            assert(j != ia);
            assert(after[j] == m.attributes[j]);
            if i < 0 || i > j {
                assert(after[j].kind != kind);
            } else if i < j {
                if i < m.attributes.len() && i != ia {
                    assert(after[i] == m.attributes[i]);
                } else if i == ia {
                    assert(after[i] == a);
                }
            }
        } else {
            if i >= 0 {
                if i < m.attributes.len() && i != ia {
                    assert(after[i] == m.attributes[i]);
                    assert(m.attributes[i].kind != kind);
                } else {
                    assert(after[i] == a);
                }
            }
        }
    }
}

/// The fewest elements among the attributes, starting from `usize::MAX`.
pub open spec fn min_len(attributes: Seq<MeshAttributeView>) -> int
    decreases attributes.len(),
{
    if attributes.len() == 0 {
        usize::MAX as int
    } else {
        let m = min_len(attributes.drop_last());
        let l = attribute_len(attributes.last());
        if l < m {
            l
        } else {
            m
        }
    }
}

/// The number of vertices: the fewest elements of any attribute; 0 without attributes.
pub open spec fn spec_vertex_count(attributes: Seq<MeshAttributeView>) -> int {
    if attributes.len() == 0 {
        0
    } else {
        min_len(attributes)
    }
}

/// No attribute has fewer elements than `min_len`, which fits a `usize`.
pub proof fn lemma_min_len(attributes: Seq<MeshAttributeView>)
    ensures
        0 <= min_len(attributes) <= usize::MAX,
        forall|k: int| 0 <= k < attributes.len() ==> min_len(attributes) <= attribute_len(#[trigger] attributes[k]),
    decreases attributes.len(),
{
    if attributes.len() > 0 {
        let d = attributes.drop_last();
        lemma_min_len(d);
        let a = attributes.last();
        let size = spec_attribute_size(a.kind) as int;
        assert(attribute_len(a) >= 0) by (nonlinear_arith)
            requires
                size > 0,
                attribute_len(a) == a.data.len() as int / size,
        ;
        assert forall|k: int| 0 <= k < attributes.len() implies min_len(attributes) <= attribute_len(
            #[trigger] attributes[k],
        ) by {
            if k < attributes.len() - 1 {
                assert(attributes[k] == d[k]);
            }
        }
    }
}

/// The bytes of vertex `i` from the first `j` attributes, in order.
pub open spec fn vertex_prefix(attributes: Seq<MeshAttributeView>, i: int, j: int) -> Seq<u8>
    decreases j,
{
    if j <= 0 {
        Seq::empty()
    } else {
        vertex_prefix(attributes, i, j - 1) + element_bytes(attributes[j - 1], i)
    }
}

/// The bytes of the first `n` vertices, each vertex's attributes in order.
pub open spec fn interleaved(attributes: Seq<MeshAttributeView>, n: int) -> Seq<u8>
    decreases n,
{
    if n <= 0 {
        Seq::empty()
    } else {
        interleaved(attributes, n - 1) + vertex_prefix(attributes, n - 1, attributes.len() as int)
    }
}

/// The bytes per vertex: the sizes of the attributes summed.
pub open spec fn vertex_stride(attributes: Seq<MeshAttributeView>) -> int
    decreases attributes.len(),
{
    if attributes.len() == 0 {
        0
    } else {
        vertex_stride(attributes.drop_last()) + spec_attribute_size(attributes.last().kind)
    }
}

/// The bytes of element `i` of an attribute with more than `i` elements
/// are one element's worth.
pub proof fn lemma_element_bytes(a: MeshAttributeView, i: int)
    requires
        0 <= i < attribute_len(a),
    ensures
        element_bytes(a, i).len() == spec_attribute_size(a.kind),
{
    let size = spec_attribute_size(a.kind) as int;
    let n = a.data.len() as int;
    vstd::arithmetic::div_mod::lemma_fundamental_div_mod(n, size);
    assert((i + 1) * size <= n) by (nonlinear_arith)
        requires
            i + 1 <= n / size,
            size > 0,
            n == size * (n / size) + n % size,
            n % size >= 0,
    ;
    assert(0 <= i * size) by (nonlinear_arith)
        requires
            i >= 0,
            size > 0,
    ;
    assert((i + 1) * size == i * size + size) by (nonlinear_arith);
}

impl Mesh {
    /// The number of vertices: the fewest elements of any attribute; 0
    /// without attributes.
    pub fn vertex_count(&self) -> (r: u64)
        ensures
            r == spec_vertex_count(self@.attributes),
    {
        (self.count_vertices() as u64)
    }

    fn count_vertices(&self) -> (r: usize)
        ensures
            r == spec_vertex_count(self@.attributes),
    {
        proof {
            lemma_attribute_views(self.attributes@);
        }
        if self.attributes.len() == 0 {
            return 0;
        }
        let mut m: usize = usize::MAX;
        let mut i: usize = 0;
        while i < self.attributes.len()
            invariant
                i <= self.attributes@.len(),
                self@.attributes == attribute_views(self.attributes@),
                self@.attributes.len() == self.attributes@.len(),
                m == min_len(self@.attributes.subrange(0, i as int)),
            decreases self.attributes@.len() - i,
        {
            proof {
                let sub1 = self@.attributes.subrange(0, i + 1);
                assert(sub1.drop_last() =~= self@.attributes.subrange(0, i as int));
                assert(sub1.last() == self.attributes@[i as int]@);
            }
            let l = self.attributes[i].len();
            if l < m {
                m = l;
            }
            i = i + 1;
        }
        proof {
            assert(self@.attributes.subrange(0, i as int) =~= self@.attributes);
        }
        m
    }

    /// The bytes of the elements `start` to `end` (excluded) of the first
    /// attribute of `kind`; none without such an attribute.
    pub fn attribute_data(&self, kind: MeshAttributeKind, start: usize, end: usize) -> (r: &[u8])
        requires
            kind_index(self@.attributes, kind) >= 0 ==> start <= end <= attribute_len(
                self@.attributes[kind_index(self@.attributes, kind)],
            ),
        ensures
            kind_index(self@.attributes, kind) >= 0 ==> r@ == self@.attributes[kind_index(
                self@.attributes,
                kind,
            )].data.subrange(start * spec_attribute_size(kind), end * spec_attribute_size(kind)),
            kind_index(self@.attributes, kind) < 0 ==> r@.len() == 0,
    {
        proof {
            lemma_kind_index(self@.attributes, kind);
        }
        match self.attribute(kind) {
            Some(a) => a.data(start, end),
            None => {
                let empty: &[u8] = &[];
                assert(empty@ =~= Seq::<u8>::empty());
                empty
            },
        }
    }

    /// The bytes of the vertices, each vertex's attributes in order, and
    /// the number of vertices.
    pub fn vertex_data(&self) -> (r: (Vec<u8>, usize))
        ensures
            r.1 == spec_vertex_count(self@.attributes),
            r.0@ == interleaved(self@.attributes, r.1 as int),
    {
        proof {
            use_type_invariant(self);
            lemma_attribute_views(self.attributes@);
            lemma_min_len(self@.attributes);
        }
        let count = self.count_vertices();
        let mut data: Vec<u8> = Vec::new();
        let mut index: usize = 0;
        while index < count
            invariant
                index <= count,
                count == spec_vertex_count(self@.attributes),
                self@.attributes == attribute_views(self.attributes@),
                self@.attributes.len() == self.attributes@.len(),
                forall|k: int|
                    0 <= k < self@.attributes.len() ==> min_len(self@.attributes) <= attribute_len(
                        #[trigger] self@.attributes[k],
                    ),
                data@ == interleaved(self@.attributes, index as int),
            decreases count - index,
        {
            let mut j: usize = 0;
            let ghost base = data@;
            while j < self.attributes.len()
                invariant
                    j <= self.attributes@.len(),
                    index < count,
                    count == spec_vertex_count(self@.attributes),
                    self@.attributes == attribute_views(self.attributes@),
                    self@.attributes.len() == self.attributes@.len(),
                    forall|k: int|
                        0 <= k < self@.attributes.len() ==> min_len(self@.attributes) <= attribute_len(
                            #[trigger] self@.attributes[k],
                        ),
                    data@ == base + vertex_prefix(self@.attributes, index as int, j as int),
                decreases self.attributes@.len() - j,
            {
                proof {
                    assert(self@.attributes[j as int] == self.attributes@[j as int]@);
                    assert(min_len(self@.attributes) <= attribute_len(self@.attributes[j as int]));
                }
                let bytes = self.attributes[j].data(index, index + 1);
                let ghost before = data@;
                data.extend_from_slice(bytes);
                j = j + 1;
                proof {
                    assert(data@ =~= before + bytes@);
                    assert(1 * spec_attribute_size(self@.attributes[j - 1].kind) == spec_attribute_size(
                        self@.attributes[j - 1].kind,
                    ));
                    assert(bytes@ == element_bytes(self@.attributes[j - 1], index as int));
                    assert(data@ =~= base + vertex_prefix(self@.attributes, index as int, j as int));
                }
            }
            index = index + 1;
        }
        (data, count)
    }
}

/// The bytes of vertex `i` from the first `j` attributes are their sizes' worth.
pub proof fn lemma_prefix_len(attributes: Seq<MeshAttributeView>, i: int, j: int)
    requires
        0 <= j <= attributes.len(),
        0 <= i,
        forall|k: int| 0 <= k < attributes.len() ==> i < attribute_len(#[trigger] attributes[k]),
    ensures
        vertex_prefix(attributes, i, j).len() == vertex_stride(attributes.subrange(0, j)),
    decreases j,
{
    if j > 0 {
        lemma_prefix_len(attributes, i, j - 1);
        lemma_element_bytes(attributes[j - 1], i);
        assert(attributes.subrange(0, j).drop_last() =~= attributes.subrange(0, j - 1));
    } else {
        assert(attributes.subrange(0, 0).len() == 0);
    }
}

/// The bytes of the first `n` vertices are `n` strides' worth.
pub proof fn lemma_interleaved_len(attributes: Seq<MeshAttributeView>, n: int)
    requires
        0 <= n,
        forall|k: int| 0 <= k < attributes.len() ==> n <= attribute_len(#[trigger] attributes[k]),
    ensures
        interleaved(attributes, n).len() == n * vertex_stride(attributes),
    decreases n,
{
    if n > 0 {
        lemma_interleaved_len(attributes, n - 1);
        assert forall|k: int| 0 <= k < attributes.len() implies n - 1 < attribute_len(#[trigger] attributes[k]) by {}
        lemma_prefix_len(attributes, n - 1, attributes.len() as int);
        assert(attributes.subrange(0, attributes.len() as int) =~= attributes);
        let s = vertex_stride(attributes);
        assert((n - 1) * s + s == n * s) by (nonlinear_arith);
        assert(interleaved(attributes, n) == interleaved(attributes, n - 1) + vertex_prefix(
            attributes,
            n - 1,
            attributes.len() as int,
        ));
    } else {
        assert(n == 0);
        assert(interleaved(attributes, 0).len() == 0);
    }
}

/// The usage of a mesh's buffers: writable and mappable when the mesh stays
/// readable, else none.
pub open spec fn mesh_usage(read_write: ReadWrite) -> BufferUsages {
    match read_write {
        ReadWrite::Enabled => BufferUsages { bits: 10 },
        ReadWrite::Disabled => BufferUsages { bits: 0 },
    }
}

/// The bytes of the mesh's vertices fit a buffer.
pub open spec fn mesh_fits(m: MeshView) -> bool {
    &&& spec_vertex_count(m.attributes) * vertex_stride(m.attributes) + 3 <= u64::MAX
    &&& m.indices matches Some(i) ==> i.len() * 4 + 3 <= u64::MAX
}

impl Mesh {
    /// Creates the GPU buffers of the mesh: a vertex buffer of its
    /// interleaved vertices and, with indices, an index buffer, both with
    /// `mesh_usage`. A mesh that does not stay readable then drops its
    /// vertex data and its indices.
    pub fn create_render_mesh(&mut self, device: &mut RenderDevice) -> (r: RenderMesh)
        requires
            mesh_fits(old(self)@),
            old(device)@.next_id + 2 <= u64::MAX,
        ensures
            ({
                let m = old(self)@;
                let count = spec_vertex_count(m.attributes);
                let usage = mesh_usage(m.read_write);
                &&& r.spec_layout() == m.attributes.map_values(|a: MeshAttributeView| a.kind)
                &&& r.spec_vertices().len == count
                &&& r.spec_vertices().usage.bits == usage.bits | 16
                &&& (count > 0 <==> r.spec_vertices().buffer is Some)
                &&& count > 0 ==> r.spec_vertices().buffer.unwrap().id == old(device)@.next_id
                    && crate::buffer::create_command_matches(
                    final(device)@.commands[old(device)@.commands.len() as int],
                    r.spec_vertices().buffer.unwrap(),
                    Some(interleaved(m.attributes, count)),
                )
                &&& r.spec_indices() == match m.indices {
                    Some(i) => Some(i.len() as u64),
                    None => None,
                }
                &&& final(self)@ == match m.read_write {
                    ReadWrite::Enabled => m,
                    ReadWrite::Disabled => MeshView {
                        attributes: emptied(m.attributes),
                        indices: match m.indices {
                            Some(_) => Some(Seq::empty()),
                            None => None,
                        },
                        ..m
                    },
                }
            }),
            count_created(old(self)@, old(device)@, final(device)@),
    {
        proof {
            use_type_invariant(&*self);
            lemma_attribute_views(self.attributes@);
            lemma_min_len(self@.attributes);
            let n = spec_vertex_count(self@.attributes);
            if self@.attributes.len() > 0 {
                lemma_interleaved_len(self@.attributes, n);
            }
        }
        let (data, count) = self.vertex_data();
        let layout = self.layout();
        let usage = match self.read_write {
            ReadWrite::Enabled => BufferUsages::copy_dst().union(BufferUsages::map_write()),
            ReadWrite::Disabled => BufferUsages::empty(),
        };
        proof {
            assert(8u32 | 2u32 == 10u32) by (bit_vector);
        }
        let vertex_buffer = VertexBuffer::new(device, data.as_slice(), count, Some(usage));
        let index_buffer = match &self.indices {
            Some(indices) => Some(IndexBuffer::new(device, indices, usage, None)),
            None => None,
        };
        match self.read_write {
            ReadWrite::Disabled => {
                self.clear_data();
            },
            ReadWrite::Enabled => {},
        }
        RenderMesh::new(layout, vertex_buffer, index_buffer)
    }

    /// Empties every attribute and the indices, keeping the rest.
    fn clear_data(&mut self)
        ensures
            final(self)@ == (MeshView {
                attributes: emptied(old(self)@.attributes),
                indices: match old(self)@.indices {
                    Some(_) => Some(Seq::empty()),
                    None => None,
                },
                ..old(self)@
            }),
    {
        let dirty = self.dirty;
        let had_indices = self.indices.is_some();
        self.clear();
        proof {
            use_type_invariant(&*self);
        }
        self.dirty = dirty;
        if had_indices {
            let empty = Indices::new(Vec::new());
            assert(empty@ =~= Seq::<u32>::empty());
            self.indices = Some(empty);
        }
    }

    /// Rebuilds the vertex buffer of `buffers` from the vertices (with no
    /// extra usage); when the indices changed and both an index buffer and
    /// indices exist, writes the indices into it and marks them current.
    pub fn update(&mut self, device: &mut RenderDevice, buffers: &mut RenderMesh)
        requires
            mesh_fits(old(self)@),
            old(device)@.next_id < u64::MAX,
        ensures
            ({
                let m = old(self)@;
                let count = spec_vertex_count(m.attributes);
                let written = m.dirty & MESH_DIRTY_INDICES == MESH_DIRTY_INDICES && m.indices is Some
                    && old(buffers).spec_indices() is Some;
                &&& final(buffers).spec_layout() == old(buffers).spec_layout()
                &&& final(buffers).spec_indices() == old(buffers).spec_indices()
                &&& final(buffers).spec_vertices().len == count
                &&& final(buffers).spec_vertices().usage.bits == 16
                &&& (count > 0 <==> final(buffers).spec_vertices().buffer is Some)
                &&& final(self)@ == (if written {
                    MeshView { dirty: m.dirty & !MESH_DIRTY_INDICES, ..m }
                } else {
                    m
                })
            }),
    {
        proof {
            use_type_invariant(&*self);
            lemma_attribute_views(self.attributes@);
            lemma_min_len(self@.attributes);
            let n = spec_vertex_count(self@.attributes);
            if self@.attributes.len() > 0 {
                lemma_interleaved_len(self@.attributes, n);
            }
        }
        let (data, count) = self.vertex_data();
        let vertex_buffer = VertexBuffer::new(device, data.as_slice(), count, None);
        buffers.set_vertex_buffer(vertex_buffer);
        if self.dirty & MESH_DIRTY_INDICES == MESH_DIRTY_INDICES {
            let written = match &self.indices {
                Some(indices) => buffers.write_indices(device, indices),
                None => false,
            };
            if written {
                self.dirty = self.dirty & !MESH_DIRTY_INDICES;
            }
        }
    }
}

/// The vertex buffer of a mesh takes one id when it has vertices, the index
/// buffer one when it has indices.
pub open spec fn count_created(m: MeshView, before: crate::device::DeviceView, after: crate::device::DeviceView) -> bool {
    after.next_id == before.next_id + (if spec_vertex_count(m.attributes) > 0 {
        1int
    } else {
        0int
    }) + (if m.indices is Some {
        1int
    } else {
        0int
    })
}

} // verus!
