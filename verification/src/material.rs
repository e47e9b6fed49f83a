use crate::buffer::BufferSliceId;
use crate::draw::{
    bind_step, index_step, pipeline_step, sent, vertex_step, PassCommand, PassCommandView, RenderState, RenderStateView,
};
use crate::mesh::{MeshAttributeKind, SubMesh, VertexAttributeDesc, VertexBufferLayout, VertexFormat, VertexStepMode};
use std::ops::Range;
use vstd::prelude::*;

verus! {

/// How a material's fragments combine with what is drawn.
#[derive(Clone, Copy, PartialEq, Eq, Structural, Debug, Hash)]
pub enum BlendMode {
    Opaque,
    Transparent,
}

/// A blend factor.
#[derive(Clone, Copy, PartialEq, Eq, Structural, Debug, Hash)]
pub enum BlendFactor {
    Zero,
    One,
    SrcAlpha,
    OneMinusSrcAlpha,
}

/// A blend operation.
#[derive(Clone, Copy, PartialEq, Eq, Structural, Debug, Hash)]
pub enum BlendOperation {
    Add,
}

/// How one channel group is blended.
#[derive(Clone, Copy, PartialEq, Eq, Structural, Debug, Hash)]
pub struct BlendComponent {
    pub src_factor: BlendFactor,
    pub dst_factor: BlendFactor,
    pub operation: BlendOperation,
}

/// How colour and alpha are blended.
#[derive(Clone, Copy, PartialEq, Eq, Structural, Debug, Hash)]
pub struct BlendState {
    pub color: BlendComponent,
    pub alpha: BlendComponent,
}

/// `src` replaces what is drawn.
pub open spec fn replace_component() -> BlendComponent {
    BlendComponent { src_factor: BlendFactor::One, dst_factor: BlendFactor::Zero, operation: BlendOperation::Add }
}

/// The blend state of a blend mode: replace for opaque, standard
/// non-premultiplied alpha blending for transparent.
pub open spec fn spec_blend_state(mode: BlendMode) -> BlendState {
    match mode {
        BlendMode::Opaque => BlendState { color: replace_component(), alpha: replace_component() },
        BlendMode::Transparent => BlendState {
            color: BlendComponent {
                src_factor: BlendFactor::SrcAlpha,
                dst_factor: BlendFactor::OneMinusSrcAlpha,
                operation: BlendOperation::Add,
            },
            alpha: BlendComponent {
                src_factor: BlendFactor::One,
                dst_factor: BlendFactor::OneMinusSrcAlpha,
                operation: BlendOperation::Add,
            },
        },
    }
}

impl BlendMode {
    pub fn blend_state(self) -> (r: BlendState)
        ensures
            r == spec_blend_state(self),
    {
        let replace = BlendComponent {
            src_factor: BlendFactor::One,
            dst_factor: BlendFactor::Zero,
            operation: BlendOperation::Add,
        };
        match self {
            BlendMode::Opaque => BlendState { color: replace, alpha: replace },
            BlendMode::Transparent => BlendState {
                color: BlendComponent {
                    src_factor: BlendFactor::SrcAlpha,
                    dst_factor: BlendFactor::OneMinusSrcAlpha,
                    operation: BlendOperation::Add,
                },
                alpha: BlendComponent {
                    src_factor: BlendFactor::One,
                    dst_factor: BlendFactor::OneMinusSrcAlpha,
                    operation: BlendOperation::Add,
                },
            },
        }
    }
}

/// Whether a pipeline writes depth.
#[derive(Clone, Copy, PartialEq, Eq, Structural, Debug, Hash)]
pub enum DepthWrite {
    Auto,
    On,
    Off,
}

/// A vertex attribute of a material's mesh data.
#[derive(Clone, Copy, PartialEq, Eq, Structural, Debug, Hash)]
pub enum VertexAttribute {
    Float,
    Vec2,
    Vec3,
    Vec4,
    Color,
}

/// Bytes per element (a colour is four packed bytes).
pub open spec fn spec_vertex_size(a: VertexAttribute) -> u64 {
    match a {
        VertexAttribute::Float => 4,
        VertexAttribute::Vec2 => 8,
        VertexAttribute::Vec3 => 12,
        VertexAttribute::Vec4 => 16,
        VertexAttribute::Color => 4,
    }
}

pub open spec fn spec_vertex_format(a: VertexAttribute) -> VertexFormat {
    match a {
        VertexAttribute::Float => VertexFormat::Float32,
        VertexAttribute::Vec2 => VertexFormat::Float32x2,
        VertexAttribute::Vec3 => VertexFormat::Float32x3,
        VertexAttribute::Vec4 => VertexFormat::Float32x4,
        VertexAttribute::Color => VertexFormat::Float32x4,
    }
}

/// Whether `r` reads `attributes` interleaved in one buffer: attribute `i`
/// at shader location `i`, right after the attributes before it, and a
/// stride of their total size.
pub open spec fn is_interleaved_layout(r: VertexBufferLayout, attributes: Seq<VertexAttribute>, mode: VertexStepMode) -> bool {
    &&& r.array_stride == attributes_size(attributes, attributes.len() as int)
    &&& r.step_mode == mode
    &&& r.attributes@.len() == attributes.len()
    &&& forall|i: int|
        0 <= i < attributes.len() ==> #[trigger] r.attributes@[i] == (VertexAttributeDesc {
            format: spec_vertex_format(attributes[i]),
            offset: attributes_size(attributes, i) as u64,
            shader_location: i as u32,
        })
}

/// The bytes taken by the first `n` attributes.
pub open spec fn attributes_size(attributes: Seq<VertexAttribute>, n: int) -> int
    decreases n,
{
    if n <= 0 {
        0
    } else {
        attributes_size(attributes, n - 1) + spec_vertex_size(attributes[n - 1])
    }
}

impl VertexAttribute {
    pub fn size(&self) -> (r: u64)
        ensures
            r == spec_vertex_size(*self),
    {
        match self {
            VertexAttribute::Float => 4,
            VertexAttribute::Vec2 => 8,
            VertexAttribute::Vec3 => 12,
            VertexAttribute::Vec4 => 16,
            VertexAttribute::Color => 4,
        }
    }

    pub fn format(&self) -> (r: VertexFormat)
        ensures
            r == spec_vertex_format(*self),
    {
        match self {
            VertexAttribute::Float => VertexFormat::Float32,
            VertexAttribute::Vec2 => VertexFormat::Float32x2,
            VertexAttribute::Vec3 => VertexFormat::Float32x3,
            VertexAttribute::Vec4 => VertexFormat::Float32x4,
            VertexAttribute::Color => VertexFormat::Float32x4,
        }
    }

    /// One interleaved buffer layout: attribute `i` at shader location `i`,
    /// right after the attributes before it; the stride is their total size.
    pub fn into_layout(attributes: &[VertexAttribute], mode: VertexStepMode) -> (r: VertexBufferLayout)
        requires
            attributes@.len() <= u32::MAX,
        ensures
            is_interleaved_layout(r, attributes@, mode),
    {
        let mut stride: u64 = 0;
        let mut out: Vec<VertexAttributeDesc> = Vec::new();
        let mut i: usize = 0;
        while i < attributes.len()
            invariant
                i <= attributes@.len() <= u32::MAX,
                stride == attributes_size(attributes@, i as int),
                stride <= 16 * i,
                out@.len() == i,
                forall|j: int|
                    0 <= j < i ==> #[trigger] out@[j] == (VertexAttributeDesc {
                        format: spec_vertex_format(attributes@[j]),
                        offset: attributes_size(attributes@, j) as u64,
                        shader_location: j as u32,
                    }),
            decreases attributes@.len() - i,
        {
            let a = &attributes[i];
            out.push(VertexAttributeDesc { format: a.format(), offset: stride, shader_location: i as u32 });
            stride = stride + a.size();
            i = i + 1;
        }
        VertexBufferLayout { array_stride: stride, step_mode: mode, attributes: out }
    }
}

/// The vertex attribute a mesh attribute is read as.
pub open spec fn spec_attribute_of(kind: MeshAttributeKind) -> VertexAttribute {
    match kind {
        MeshAttributeKind::Position => VertexAttribute::Vec3,
        MeshAttributeKind::Normal => VertexAttribute::Vec3,
        MeshAttributeKind::TexCoord0 => VertexAttribute::Vec2,
        MeshAttributeKind::TexCoord1 => VertexAttribute::Vec2,
        MeshAttributeKind::Tangent => VertexAttribute::Vec3,
        MeshAttributeKind::Color => VertexAttribute::Color,
    }
}

impl From<MeshAttributeKind> for VertexAttribute {
    fn from(kind: MeshAttributeKind) -> (r: VertexAttribute) {
        match kind {
            MeshAttributeKind::Position => VertexAttribute::Vec3,
            MeshAttributeKind::Normal => VertexAttribute::Vec3,
            MeshAttributeKind::TexCoord0 => VertexAttribute::Vec2,
            MeshAttributeKind::TexCoord1 => VertexAttribute::Vec2,
            MeshAttributeKind::Tangent => VertexAttribute::Vec3,
            MeshAttributeKind::Color => VertexAttribute::Color,
        }
    }
}

impl vstd::std_specs::convert::FromSpecImpl<MeshAttributeKind> for VertexAttribute {
    open spec fn obeys_from_spec() -> bool {
        true
    }

    open spec fn from_spec(kind: MeshAttributeKind) -> VertexAttribute {
        spec_attribute_of(kind)
    }
}

/// What draw calls are batched by: the material, the mesh and the part of it.
#[derive(Clone, Copy, PartialEq, Eq, Structural, Debug, Hash)]
pub struct BatchKey {
    pub material: u128,
    pub mesh: u128,
    pub sub_mesh: Option<SubMesh>,
}

/// The keys of `keys` in the order of their first occurrence.
pub open spec fn distinct_keys(keys: Seq<BatchKey>) -> Seq<BatchKey>
    decreases keys.len(),
{
    if keys.len() == 0 {
        Seq::empty()
    } else {
        let d = distinct_keys(keys.drop_last());
        if d.contains(keys.last()) {
            d
        } else {
            d.push(keys.last())
        }
    }
}

/// The positions of `k` in `keys`, ascending.
pub open spec fn positions(keys: Seq<BatchKey>, k: BatchKey) -> Seq<usize>
    decreases keys.len(),
{
    if keys.len() == 0 {
        Seq::empty()
    } else {
        let p = positions(keys.drop_last(), k);
        if keys.last() == k {
            p.push((keys.len() - 1) as usize)
        } else {
            p
        }
    }
}

/// How many draw calls the first `n` distinct keys gather.
pub open spec fn gathered(keys: Seq<BatchKey>, d: Seq<BatchKey>, n: int) -> int
    decreases n,
{
    if n <= 0 {
        0
    } else {
        gathered(keys, d, n - 1) + positions(keys, d[n - 1]).len()
    }
}

/// The positions of the first `n` distinct keys, one key after another.
pub open spec fn gathered_positions(keys: Seq<BatchKey>, d: Seq<BatchKey>, n: int) -> Seq<usize>
    decreases n,
{
    if n <= 0 {
        Seq::empty()
    } else {
        gathered_positions(keys, d, n - 1) + positions(keys, d[n - 1])
    }
}

/// How often `x` occurs in `d`.
pub open spec fn occurrences(d: Seq<BatchKey>, x: BatchKey) -> int
    decreases d.len(),
{
    if d.len() == 0 {
        0
    } else {
        occurrences(d.drop_last(), x) + if d.last() == x {
            1int
        } else {
            0int
        }
    }
}

proof fn lemma_occurrences(d: Seq<BatchKey>, x: BatchKey)
    requires
        d.no_duplicates(),
    ensures
        occurrences(d, x) == if d.contains(x) {
            1int
        } else {
            0int
        },
    decreases d.len(),
{
    if d.len() > 0 {
        lemma_occurrences(d.drop_last(), x);
        if d.drop_last().contains(x) {
            let j = choose|j: int| 0 <= j < d.drop_last().len() && d.drop_last()[j] == x;
            assert(d[j] == x);
            assert(d.last() != x);
        }
        if d.contains(x) && !d.drop_last().contains(x) {
            let j = choose|j: int| 0 <= j < d.len() && d[j] == x;
            if j < d.len() - 1 {
                assert(d.drop_last()[j] == x);
            }
        }
        if d.drop_last().contains(x) {
            let j = choose|j: int| 0 <= j < d.drop_last().len() && d.drop_last()[j] == x;
            assert(d[j] == x);
        }
    }
}

proof fn lemma_gathered_push(keys: Seq<BatchKey>, x: BatchKey, d: Seq<BatchKey>, n: int)
    requires
        0 <= n <= d.len(),
    ensures
        gathered(keys.push(x), d, n) == gathered(keys, d, n) + occurrences(d.subrange(0, n), x),
    decreases n,
{
    if n > 0 {
        lemma_gathered_push(keys, x, d, n - 1);
        assert(keys.push(x).drop_last() =~= keys);
        assert(d.subrange(0, n).drop_last() =~= d.subrange(0, n - 1));
    } else {
        assert(d.subrange(0, n).len() == 0);
    }
}

proof fn lemma_distinct_keys(keys: Seq<BatchKey>)
    ensures
        distinct_keys(keys).no_duplicates(),
        forall|k: BatchKey| distinct_keys(keys).contains(k) <==> keys.contains(k),
        forall|k: BatchKey| !keys.contains(k) ==> positions(keys, k).len() == 0,
    decreases keys.len(),
{
    if keys.len() > 0 {
        let s = keys.drop_last();
        lemma_distinct_keys(s);
        let d = distinct_keys(s);
        let x = keys.last();
        assert forall|k: BatchKey| keys.contains(k) <==> (s.contains(k) || k == x) by {
            if keys.contains(k) && k != x {
                let j = choose|j: int| 0 <= j < keys.len() && keys[j] == k;
                assert(j != keys.len() - 1);
                assert(s[j] == k);
            }
            if s.contains(k) {
                let j = choose|j: int| 0 <= j < s.len() && s[j] == k;
                assert(keys[j] == k);
            }
            if k == x {
                assert(keys[keys.len() - 1] == k);
            }
        }
        if d.contains(x) {
            assert(distinct_keys(keys) == d);
        } else {
            let e = d.push(x);
            assert(distinct_keys(keys) == e);
            assert forall|k: BatchKey| e.contains(k) <==> (d.contains(k) || k == x) by {
                if e.contains(k) && k != x {
                    let j = choose|j: int| 0 <= j < e.len() && e[j] == k;
                    assert(j != d.len());
                    assert(d[j] == k);
                }
                if d.contains(k) {
                    let j = choose|j: int| 0 <= j < d.len() && d[j] == k;
                    assert(e[j] == k);
                }
                if k == x {
                    assert(e[d.len() as int] == k);
                }
            }
            assert forall|a: int, b: int| 0 <= a < b < e.len() implies e[a] != e[b] by {
                if b == d.len() {
                    assert(d.contains(e[a]));
                }
            }
        }
        assert forall|k: BatchKey| !keys.contains(k) implies positions(keys, k).len() == 0 by {
            assert(keys[keys.len() - 1] == keys.last());
            if s.contains(k) {
                let j = choose|j: int| 0 <= j < s.len() && s[j] == k;
                assert(keys[j] == k);
            }
        }
    }
}

/// The distinct keys gather every draw call.
proof fn lemma_gathered_all(keys: Seq<BatchKey>)
    ensures
        gathered(keys, distinct_keys(keys), distinct_keys(keys).len() as int) == keys.len(),
    decreases keys.len(),
{
    if keys.len() > 0 {
        let s = keys.drop_last();
        let x = keys.last();
        let d = distinct_keys(s);
        lemma_gathered_all(s);
        lemma_distinct_keys(s);
        assert(s.push(x) =~= keys);
        lemma_gathered_push(s, x, distinct_keys(keys), distinct_keys(keys).len() as int);
        lemma_distinct_keys(keys);
        let dk = distinct_keys(keys);
        assert(dk.subrange(0, dk.len() as int) =~= dk);
        lemma_occurrences(dk, x);
        assert(keys[keys.len() - 1] == x);
        if d.contains(x) {
            assert(dk == d);
        } else {
            assert(dk == d.push(x));
            assert(!s.contains(x));
            assert(positions(s, x).len() == 0);
            lemma_gathered_extend(s, d, x);
        }
    }
}

proof fn lemma_gathered_extend(keys: Seq<BatchKey>, d: Seq<BatchKey>, x: BatchKey)
    requires
        positions(keys, x).len() == 0,
    ensures
        gathered(keys, d.push(x), d.len() as int + 1) == gathered(keys, d, d.len() as int),
{
    lemma_gathered_prefix(keys, d, d.push(x), d.len() as int);
}

proof fn lemma_gathered_prefix(keys: Seq<BatchKey>, d: Seq<BatchKey>, e: Seq<BatchKey>, n: int)
    requires
        0 <= n <= d.len(),
        n <= e.len(),
        forall|j: int| 0 <= j < n ==> d[j] == e[j],
    ensures
        gathered(keys, d, n) == gathered(keys, e, n),
        gathered_positions(keys, d, n) == gathered_positions(keys, e, n),
    decreases n,
{
    if n > 0 {
        lemma_gathered_prefix(keys, d, e, n - 1);
    }
}

proof fn lemma_gathered_positions_len(keys: Seq<BatchKey>, d: Seq<BatchKey>, n: int)
    ensures
        gathered_positions(keys, d, n).len() == gathered(keys, d, n),
        n <= d.len() ==> forall|m: int| 0 <= m <= n ==> #[trigger] gathered(keys, d, m) <= gathered(keys, d, n),
    decreases n,
{
    if n > 0 {
        lemma_gathered_positions_len(keys, d, n - 1);
    }
}

/// Where the mesh data of a view's draw calls went: each batch's range of
/// instances, and each unbatched call with its instance.
pub struct DrawRanges {
    pub batches: Vec<(BatchKey, Range<u32>)>,
    pub unbatched: Vec<(BatchKey, u32)>,
}

fn contains_key(keys: &Vec<BatchKey>, k: BatchKey) -> (r: bool)
    ensures
        r == keys@.contains(k),
{
    let mut i: usize = 0;
    while i < keys.len()
        invariant
            i <= keys@.len(),
            forall|j: int| 0 <= j < i ==> keys@[j] != k,
        decreases keys@.len() - i,
    {
        if keys[i] == k {
            return true;
        }
        i = i + 1;
    }
    false
}

fn distinct_of(keys: &[BatchKey]) -> (r: Vec<BatchKey>)
    ensures
        r@ == distinct_keys(keys@),
{
    let mut d: Vec<BatchKey> = Vec::new();
    let mut i: usize = 0;
    while i < keys.len()
        invariant
            i <= keys@.len(),
            d@ == distinct_keys(keys@.subrange(0, i as int)),
        decreases keys@.len() - i,
    {
        let k = keys[i];
        proof {
            assert(keys@.subrange(0, i + 1).drop_last() =~= keys@.subrange(0, i as int));
        }
        if !contains_key(&d, k) {
            d.push(k);
        }
        i = i + 1;
    }
    assert(keys@.subrange(0, keys@.len() as int) =~= keys@);
    d
}

fn positions_of(keys: &[BatchKey], k: BatchKey) -> (r: Vec<usize>)
    ensures
        r@ == positions(keys@, k),
{
    let mut p: Vec<usize> = Vec::new();
    let mut i: usize = 0;
    while i < keys.len()
        invariant
            i <= keys@.len(),
            p@ == positions(keys@.subrange(0, i as int), k),
        decreases keys@.len() - i,
    {
        proof {
            assert(keys@.subrange(0, i + 1).drop_last() =~= keys@.subrange(0, i as int));
        }
        if keys[i] == k {
            p.push(i);
        }
        i = i + 1;
    }
    assert(keys@.subrange(0, keys@.len() as int) =~= keys@);
    p
}

/// Lays out the mesh data of one view's draw calls, the `i`-th call having
/// the key `keys[i]`, after the `start` instances already in the buffer.
/// Batched: one run per distinct key (in the order keys first occur) holding
/// its calls in order. Otherwise each call gets one instance, in order.
/// Also returns the calls in the order their data is appended.
pub fn prepare_draw_calls(keys: &[BatchKey], batch: bool, start: u32) -> (r: (DrawRanges, Vec<usize>))
    requires
        start + keys@.len() <= u32::MAX,
    ensures
        batch ==> {
            let d = distinct_keys(keys@);
            &&& r.0.unbatched@.len() == 0
            &&& r.0.batches@.len() == d.len()
            &&& forall|g: int|
                0 <= g < d.len() ==> {
                    &&& (#[trigger] r.0.batches@[g]).0 == d[g]
                    &&& r.0.batches@[g].1.start == start + gathered(keys@, d, g)
                    &&& r.0.batches@[g].1.end == start + gathered(keys@, d, g + 1)
                }
            &&& r.1@ == gathered_positions(keys@, d, d.len() as int)
            &&& r.1@.len() == keys@.len()
        },
        !batch ==> {
            &&& r.0.batches@.len() == 0
            &&& r.0.unbatched@.len() == keys@.len()
            &&& forall|i: int|
                0 <= i < keys@.len() ==> #[trigger] r.0.unbatched@[i] == (keys@[i], (start + i) as u32)
            &&& r.1@.len() == keys@.len()
            &&& forall|i: int| 0 <= i < keys@.len() ==> #[trigger] r.1@[i] == i
        },
{
    if batch {
        let d = distinct_of(keys);
        proof {
            lemma_gathered_all(keys@);
            lemma_gathered_positions_len(keys@, d@, d@.len() as int);
        }
        let mut batches: Vec<(BatchKey, Range<u32>)> = Vec::new();
        let mut order: Vec<usize> = Vec::new();
        let mut next: u32 = start;
        let mut g: usize = 0;
        while g < d.len()
            invariant
                d@ == distinct_keys(keys@),
                start + keys@.len() <= u32::MAX,
                gathered(keys@, d@, d@.len() as int) == keys@.len(),
                forall|m: int| 0 <= m <= d@.len() ==> #[trigger] gathered(keys@, d@, m) <= gathered(keys@, d@, d@.len() as int),
                g <= d@.len(),
                batches@.len() == g,
                next == start + gathered(keys@, d@, g as int),
                order@ == gathered_positions(keys@, d@, g as int),
                forall|h: int|
                    0 <= h < g ==> {
                        &&& (#[trigger] batches@[h]).0 == d@[h]
                        &&& batches@[h].1.start == start + gathered(keys@, d@, h)
                        &&& batches@[h].1.end == start + gathered(keys@, d@, h + 1)
                    },
            decreases d@.len() - g,
        {
            let k = d[g];
            let p = positions_of(keys, k);
            proof {
                assert(gathered(keys@, d@, g + 1) == gathered(keys@, d@, g as int) + p@.len());
                assert(gathered(keys@, d@, g + 1) <= gathered(keys@, d@, d@.len() as int));
            }
            let count = p.len() as u32;
            let mut t: usize = 0;
            let ghost before = order@;
            while t < p.len()
                invariant
                    t <= p@.len(),
                    order@ == before + p@.subrange(0, t as int),
                decreases p@.len() - t,
            {
                order.push(p[t]);
                t = t + 1;
                assert(order@ =~= before + p@.subrange(0, t as int));
            }
            assert(p@.subrange(0, p@.len() as int) =~= p@);
            let end = next + count;
            batches.push((k, Range { start: next, end }));
            next = end;
            g = g + 1;
        }
        proof {
            lemma_gathered_positions_len(keys@, d@, d@.len() as int);
        }
        (DrawRanges { batches, unbatched: Vec::new() }, order)
    } else {
        let mut unbatched: Vec<(BatchKey, u32)> = Vec::new();
        let mut order: Vec<usize> = Vec::new();
        let mut i: usize = 0;
        while i < keys.len()
            invariant
                i <= keys@.len(),
                start + keys@.len() <= u32::MAX,
                unbatched@.len() == i,
                order@.len() == i,
                forall|j: int| 0 <= j < i ==> #[trigger] unbatched@[j] == (keys@[j], (start + j) as u32),
                forall|j: int| 0 <= j < i ==> #[trigger] order@[j] == j,
            decreases keys@.len() - i,
        {
            unbatched.push((keys[i], start + i as u32));
            order.push(i);
            i = i + 1;
        }
        (DrawRanges { batches: Vec::new(), unbatched }, order)
    }
}

/// What drawing one mesh needs: its vertex buffer, its index buffer (when
/// it is indexed) and its vertex and index counts.
#[derive(Clone, Copy, PartialEq, Eq, Structural, Debug)]
pub struct MeshDraw {
    pub vertex_buffer: BufferSliceId,
    pub index_buffer: Option<BufferSliceId>,
    pub vertex_count: u32,
    pub index_count: u32,
}

/// No id occurs twice in `table`.
pub open spec fn unique_ids<V>(table: Seq<(u128, V)>) -> bool {
    forall|i: int, j: int| 0 <= i < table.len() && 0 <= j < table.len() && table[i].0 == table[j].0 ==> i == j
}

/// The value `table` holds for `id`.
pub open spec fn lookup<V>(table: Seq<(u128, V)>, id: u128) -> Option<V> {
    if exists|i: int| 0 <= i < table.len() && table[i].0 == id {
        Some(table[choose|i: int| 0 <= i < table.len() && table[i].0 == id].1)
    } else {
        None
    }
}

fn find<V: Copy>(table: &[(u128, V)], id: u128) -> (r: Option<V>)
    requires
        unique_ids(table@),
    ensures
        r == lookup(table@, id),
{
    let mut i: usize = 0;
    while i < table.len()
        invariant
            i <= table@.len(),
            unique_ids(table@),
            forall|j: int| 0 <= j < i ==> table@[j].0 != id,
        decreases table@.len() - i,
    {
        if table[i].0 == id {
            let v = table[i].1;
            proof {
                assert(table@[i as int].0 == id);
                let c = choose|j: int| 0 <= j < table@.len() && table@[j].0 == id;
                assert(c == i);
            }
            return Some(v);
        }
        i = i + 1;
    }
    None
}

/// The vertices and indices a draw covers: the sub-mesh's runs, else the
/// whole mesh.
pub open spec fn draw_span(key: BatchKey, mesh: MeshDraw) -> (Range<u32>, Range<u32>) {
    match key.sub_mesh {
        Some(sm) => (
            Range { start: sm.start_vertex as u32, end: (sm.start_vertex + sm.vertex_count) as u32 },
            Range { start: sm.start_index as u32, end: (sm.start_index + sm.index_count) as u32 },
        ),
        None => (Range { start: 0, end: mesh.vertex_count }, Range { start: 0, end: mesh.index_count }),
    }
}

/// Drawing the instances `batch` of the mesh and material of `key`: nothing
/// when either is missing; else bind the mesh's vertex buffer and the
/// material, then draw, indexed when the mesh has indices.
pub open spec fn entry_step(
    s: RenderStateView,
    key: BatchKey,
    batch: Range<u32>,
    meshes: Seq<(u128, MeshDraw)>,
    materials: Seq<(u128, u64)>,
) -> (RenderStateView, Seq<PassCommandView>) {
    match (lookup(meshes, key.mesh), lookup(materials, key.material)) {
        (Some(mesh), Some(material)) => {
            let (vertices, indices) = draw_span(key, mesh);
            let (s1, c1) = vertex_step(s, 0, mesh.vertex_buffer);
            let (s2, c2) = bind_step(s1, 1, material, Seq::empty());
            match mesh.index_buffer {
                Some(ib) => {
                    let (s3, c3) = index_step(s2, ib);
                    (
                        s3,
                        c1 + c2 + c3 + seq![
                            PassCommandView::DrawIndexed {
                                indices,
                                base_vertex: vertices.start as i32,
                                instances: batch,
                            },
                        ],
                    )
                },
                None => (s2, c1 + c2 + seq![PassCommandView::Draw { vertices, instances: batch }]),
            }
        },
        _ => (s, Seq::empty()),
    }
}

/// Drawing each entry in turn.
pub open spec fn run_entries(
    s: RenderStateView,
    entries: Seq<(BatchKey, Range<u32>)>,
    meshes: Seq<(u128, MeshDraw)>,
    materials: Seq<(u128, u64)>,
) -> (RenderStateView, Seq<PassCommandView>)
    decreases entries.len(),
{
    if entries.len() == 0 {
        (s, Seq::empty())
    } else {
        let (s1, c1) = run_entries(s, entries.drop_last(), meshes, materials);
        let (s2, c2) = entry_step(s1, entries.last().0, entries.last().1, meshes, materials);
        (s2, c1 + c2)
    }
}

/// The batches, then each unbatched call as a run of one instance.
pub open spec fn draw_entries(batches: Seq<(BatchKey, Range<u32>)>, unbatched: Seq<(BatchKey, u32)>) -> Seq<
    (BatchKey, Range<u32>),
> {
    batches + Seq::new(
        unbatched.len(),
        |i: int| (unbatched[i].0, Range { start: unbatched[i].1, end: (unbatched[i].1 + 1) as u32 }),
    )
}

/// The views of some commands.
pub open spec fn command_views(cmds: Seq<PassCommand>) -> Seq<PassCommandView> {
    Seq::new(cmds.len(), |i: int| cmds[i]@)
}

/// A key whose sub-mesh runs fit in 64 bits.
pub open spec fn spans_fit(key: BatchKey) -> bool {
    key.sub_mesh matches Some(sm) ==> sm.start_vertex + sm.vertex_count <= u64::MAX && sm.start_index
        + sm.index_count <= u64::MAX
}

fn push_sent(cmds: &mut Vec<PassCommand>, c: Option<PassCommand>)
    ensures
        command_views(final(cmds)@) == command_views(old(cmds)@) + sent(c),
{
    match c {
        Some(c) => {
            cmds.push(c);
        },
        None => {},
    }
    assert(command_views(cmds@) =~= command_views(old(cmds)@) + sent(c));
}

fn push_command(cmds: &mut Vec<PassCommand>, c: PassCommand)
    ensures
        command_views(final(cmds)@) == command_views(old(cmds)@) + seq![c@],
{
    cmds.push(c);
    assert(command_views(cmds@) =~= command_views(old(cmds)@) + seq![c@]);
}

/// Draws one entry (see `entry_step`).
fn draw_entry(
    state: &mut RenderState,
    cmds: &mut Vec<PassCommand>,
    key: BatchKey,
    batch: Range<u32>,
    meshes: &[(u128, MeshDraw)],
    materials: &[(u128, u64)],
)
    requires
        unique_ids(meshes@),
        unique_ids(materials@),
        spans_fit(key),
    ensures
        ({
            let (s, c) = entry_step(old(state)@, key, batch, meshes@, materials@);
            final(state)@ == s && command_views(final(cmds)@) == command_views(old(cmds)@) + c
        }),
{
    let mesh = match find(meshes, key.mesh) {
        Some(m) => m,
        None => {
            return ;
        },
    };
    let material = match find(materials, key.material) {
        Some(m) => m,
        None => {
            return ;
        },
    };
    let (vertices, indices) = match key.sub_mesh {
        Some(sm) => (
            (sm.start_vertex as u32)..((sm.start_vertex + sm.vertex_count) as u32),
            (sm.start_index as u32)..((sm.start_index + sm.index_count) as u32),
        ),
        None => (0..mesh.vertex_count, 0..mesh.index_count),
    };
    let ghost c0 = command_views(cmds@);
    let c1 = state.set_vertex_buffer(0, mesh.vertex_buffer);
    push_sent(cmds, c1);
    let no_offsets: Vec<u32> = Vec::new();
    let c2 = state.set_bind_group(1, material, no_offsets.as_slice());
    proof {
        assert(no_offsets@ =~= Seq::<u32>::empty());
    }
    push_sent(cmds, c2);
    match mesh.index_buffer {
        Some(ib) => {
            let c3 = state.set_index_buffer(ib);
            push_sent(cmds, c3);
            let start = vertices.start as i32;
            let d = state.draw_indexed(indices, start, batch);
            push_command(cmds, d);
        },
        None => {
            let d = state.draw(vertices, batch);
            push_command(cmds, d);
        },
    }
    proof {
        let (s, c) = entry_step(old(state)@, key, batch, meshes@, materials@);
        assert(command_views(cmds@) =~= c0 + c);
    }
}

/// Draws the calls of one view with a material pipeline: sets the pipeline,
/// the per-instance mesh data at vertex slot 1 and the view's bind group
/// (group 0, at the view's dynamic offset), then draws each batch and each
/// unbatched call (see `entry_step`). Returns the commands the pass performs.
pub fn draw_view_calls(
    state: &mut RenderState,
    pipeline: u64,
    instance_buffer: BufferSliceId,
    view_group: u64,
    view_offset: u32,
    ranges: &DrawRanges,
    meshes: &[(u128, MeshDraw)],
    materials: &[(u128, u64)],
) -> (r: Vec<PassCommand>)
    requires
        unique_ids(meshes@),
        unique_ids(materials@),
        forall|i: int| 0 <= i < ranges.batches@.len() ==> spans_fit(#[trigger] ranges.batches@[i].0),
        forall|i: int|
            0 <= i < ranges.unbatched@.len() ==> spans_fit(#[trigger] ranges.unbatched@[i].0)
                && ranges.unbatched@[i].1 < u32::MAX,
    ensures
        ({
            let (s1, c1) = pipeline_step(old(state)@, pipeline);
            let (s2, c2) = vertex_step(s1, 1, instance_buffer);
            let (s3, c3) = bind_step(s2, 0, view_group, seq![view_offset]);
            let (s4, c4) = run_entries(
                s3,
                draw_entries(ranges.batches@, ranges.unbatched@),
                meshes@,
                materials@,
            );
            final(state)@ == s4 && command_views(r@) == c1 + c2 + c3 + c4
        }),
{
    let mut cmds: Vec<PassCommand> = Vec::new();
    let c1 = state.set_pipeline(pipeline);
    push_sent(&mut cmds, c1);
    let c2 = state.set_vertex_buffer(1, instance_buffer);
    push_sent(&mut cmds, c2);
    let mut offsets: Vec<u32> = Vec::new();
    offsets.push(view_offset);
    let c3 = state.set_bind_group(0, view_group, offsets.as_slice());
    proof {
        assert(offsets@ =~= seq![view_offset]);
    }
    push_sent(&mut cmds, c3);
    let ghost s3 = state@;
    let ghost prelude = command_views(cmds@);
    let ghost entries = draw_entries(ranges.batches@, ranges.unbatched@);
    let nb = ranges.batches.len();
    let mut i: usize = 0;
    while i < nb
        invariant
            nb == ranges.batches@.len(),
            i <= nb,
            unique_ids(meshes@),
            unique_ids(materials@),
            forall|j: int| 0 <= j < ranges.batches@.len() ==> spans_fit(#[trigger] ranges.batches@[j].0),
            entries == draw_entries(ranges.batches@, ranges.unbatched@),
            ({
                let (s, c) = run_entries(s3, entries.subrange(0, i as int), meshes@, materials@);
                state@ == s && command_views(cmds@) == prelude + c
            }),
        decreases nb - i,
    {
        let (key, batch) = &ranges.batches[i];
        proof {
            assert(entries.subrange(0, i + 1).drop_last() =~= entries.subrange(0, i as int));
            assert(entries[i as int] == ranges.batches@[i as int]);
        }
        let ghost cv = command_views(cmds@);
        let b = batch.start..batch.end;
        proof {
            assert(b == *batch);
        }
        draw_entry(state, &mut cmds, *key, b, meshes, materials);
        proof {
            let (s, c) = run_entries(s3, entries.subrange(0, i as int), meshes@, materials@);
            let (s2, c2) = entry_step(s, *key, *batch, meshes@, materials@);
            assert(prelude + c + c2 =~= prelude + (c + c2));
        }
        i = i + 1;
    }
    let nu = ranges.unbatched.len();
    let mut u: usize = 0;
    while u < nu
        invariant
            nb == ranges.batches@.len(),
            nu == ranges.unbatched@.len(),
            u <= nu,
            unique_ids(meshes@),
            unique_ids(materials@),
            forall|j: int|
                0 <= j < ranges.unbatched@.len() ==> spans_fit(#[trigger] ranges.unbatched@[j].0)
                    && ranges.unbatched@[j].1 < u32::MAX,
            entries == draw_entries(ranges.batches@, ranges.unbatched@),
            ({
                let (s, c) = run_entries(s3, entries.subrange(0, nb + u), meshes@, materials@);
                state@ == s && command_views(cmds@) == prelude + c
            }),
        decreases nu - u,
    {
        let (key, offset) = &ranges.unbatched[u];
        let batch = *offset..(*offset + 1);
        proof {
            assert(entries.subrange(0, nb + u + 1).drop_last() =~= entries.subrange(0, nb + u));
            assert(entries[nb + u] == (*key, batch));
        }
        draw_entry(state, &mut cmds, *key, batch, meshes, materials);
        proof {
            let (s, c) = run_entries(s3, entries.subrange(0, nb + u), meshes@, materials@);
            let (s2, c2) = entry_step(s, *key, batch, meshes@, materials@);
            assert(prelude + c + c2 =~= prelude + (c + c2));
        }
        u = u + 1;
    }
    proof {
        assert(entries.subrange(0, nb + nu) =~= entries);
    }
    cmds
}

/// A batch of draws: the index of its first entry and how many it holds.
#[derive(Clone, Copy, PartialEq, Eq, Structural, Debug)]
pub struct Batch {
    index: u32,
    size: u32,
}

impl Batch {
    pub closed spec fn spec_index(&self) -> u32 {
        self.index
    }

    pub closed spec fn spec_size(&self) -> u32 {
        self.size
    }

    pub fn new(index: u32, size: u32) -> (r: Batch)
        ensures
            r.spec_index() == index,
            r.spec_size() == size,
    {
        Batch { index, size }
    }
}

/// The order in which cameras render: lower depths first.
#[derive(Clone, Copy, PartialEq, Eq, Structural, Debug, Hash, PartialOrd, Ord)]
pub struct RenderDepth(pub u32);

/// The part of a material pass a draw node runs in: opaque nodes run
/// first, then transparent ones.
#[derive(Clone, Copy, PartialEq, Eq, Structural, Debug)]
pub enum SubPass {
    Opaque,
    Transparent,
}

/// The part of the pass that draws of a material with `mode` run in.
pub open spec fn spec_sub_pass(mode: BlendMode) -> SubPass {
    match mode {
        BlendMode::Opaque => SubPass::Opaque,
        BlendMode::Transparent => SubPass::Transparent,
    }
}

/// The part of the pass that draws of a material with `mode` run in.
pub fn sub_pass(mode: BlendMode) -> (r: SubPass)
    ensures
        r == spec_sub_pass(mode),
{
    match mode {
        BlendMode::Opaque => SubPass::Opaque,
        BlendMode::Transparent => SubPass::Transparent,
    }
}

/// A material pass: the draw nodes of opaque materials and those of
/// transparent ones, each in the order they were added.
pub struct MaterialPassNode<N> {
    opaque: Vec<N>,
    transparent: Vec<N>,
}

impl<N> MaterialPassNode<N> {
    pub closed spec fn spec_opaque(&self) -> Seq<N> {
        self.opaque@
    }

    pub closed spec fn spec_transparent(&self) -> Seq<N> {
        self.transparent@
    }

    /// The nodes in the order the pass runs them: opaque, then transparent.
    pub open spec fn run_order(&self) -> Seq<N> {
        self.spec_opaque() + self.spec_transparent()
    }

    /// A pass with no draw node.
    pub fn new() -> (r: MaterialPassNode<N>)
        ensures
            r.spec_opaque() == Seq::<N>::empty(),
            r.spec_transparent() == Seq::<N>::empty(),
    {
        MaterialPassNode { opaque: Vec::new(), transparent: Vec::new() }
    }

    /// Adds the draw node of a material with blend mode `mode`: last among
    /// the opaque nodes for an opaque material, else last among the
    /// transparent ones; the other list is unchanged.
    pub fn add_node(&mut self, mode: BlendMode, node: N)
        ensures
            spec_sub_pass(mode) == SubPass::Opaque ==> final(self).spec_opaque() == old(self).spec_opaque().push(node)
                && final(self).spec_transparent() == old(self).spec_transparent(),
            spec_sub_pass(mode) == SubPass::Transparent ==> final(self).spec_transparent() == old(
                self,
            ).spec_transparent().push(node) && final(self).spec_opaque() == old(self).spec_opaque(),
    {
        match sub_pass(mode) {
            SubPass::Opaque => self.opaque.push(node),
            SubPass::Transparent => self.transparent.push(node),
        }
    }

    /// The opaque draw nodes, in the order they were added.
    pub fn opaque_pass(&self) -> (r: &[N])
        ensures
            r@ == self.spec_opaque(),
    {
        self.opaque.as_slice()
    }

    /// The transparent draw nodes, in the order they were added.
    pub fn transparent_pass(&self) -> (r: &[N])
        ensures
            r@ == self.spec_transparent(),
    {
        self.transparent.as_slice()
    }
}

/// The draw node of one view: when the view has draw calls, it draws them
/// as `draw_view_calls` does; when it has none, it sends nothing and leaves
/// the render state as it was.
pub fn draw_node(
    state: &mut RenderState,
    pipeline: u64,
    instance_buffer: BufferSliceId,
    view_group: u64,
    view_offset: u32,
    ranges: Option<&DrawRanges>,
    meshes: &[(u128, MeshDraw)],
    materials: &[(u128, u64)],
) -> (r: Vec<PassCommand>)
    requires
        unique_ids(meshes@),
        unique_ids(materials@),
        ranges matches Some(rg) ==> {
            &&& forall|i: int| 0 <= i < rg.batches@.len() ==> spans_fit(#[trigger] rg.batches@[i].0)
            &&& forall|i: int|
                0 <= i < rg.unbatched@.len() ==> spans_fit(#[trigger] rg.unbatched@[i].0) && rg.unbatched@[i].1
                    < u32::MAX
        },
    ensures
        match ranges {
            None => r@.len() == 0 && final(state)@ == old(state)@,
            Some(rg) => {
                let (s1, c1) = pipeline_step(old(state)@, pipeline);
                let (s2, c2) = vertex_step(s1, 1, instance_buffer);
                let (s3, c3) = bind_step(s2, 0, view_group, seq![view_offset]);
                let (s4, c4) = run_entries(s3, draw_entries(rg.batches@, rg.unbatched@), meshes@, materials@);
                final(state)@ == s4 && command_views(r@) == c1 + c2 + c3 + c4
            },
        },
{
    match ranges {
        None => Vec::new(),
        Some(rg) => draw_view_calls(state, pipeline, instance_buffer, view_group, view_offset, rg, meshes, materials),
    }
}

/// The part of a mesh a draw covers: the sub-mesh, else the whole mesh.
pub open spec fn mesh_span(sub_mesh: Option<SubMesh>, mesh: MeshDraw) -> SubMesh {
    match sub_mesh {
        Some(sm) => sm,
        None => SubMesh {
            start_vertex: 0,
            vertex_count: mesh.vertex_count as u64,
            start_index: 0,
            index_count: mesh.index_count as u64,
        },
    }
}

/// A sub-mesh whose runs fit in 64 bits.
pub open spec fn span_fits(sub_mesh: Option<SubMesh>) -> bool {
    sub_mesh matches Some(sm) ==> sm.start_vertex + sm.vertex_count <= u64::MAX && sm.start_index
        + sm.index_count <= u64::MAX
}

/// Drawing the instances `instances` of the mesh `mesh_id` (or its part
/// `sub_mesh`) with per-instance mesh data: nothing when the mesh is
/// missing; else its vertex buffer, cut to the span's vertex run, at slot
/// 0, then a draw of the span, indexed (with the index buffer cut to the
/// span's index run) when the mesh has indices.
pub open spec fn mesh_data_step(
    s: RenderStateView,
    mesh_id: u128,
    sub_mesh: Option<SubMesh>,
    instances: Range<u32>,
    meshes: Seq<(u128, MeshDraw)>,
) -> (RenderStateView, Seq<PassCommandView>) {
    match lookup(meshes, mesh_id) {
        Some(mesh) => {
            let sm = mesh_span(sub_mesh, mesh);
            let vb = BufferSliceId {
                id: mesh.vertex_buffer.id,
                start: sm.start_vertex,
                end: (sm.start_vertex + sm.vertex_count) as u64,
            };
            let (s1, c1) = vertex_step(s, 0, vb);
            match mesh.index_buffer {
                Some(ib) => {
                    let islice = BufferSliceId {
                        id: ib.id,
                        start: sm.start_index,
                        end: (sm.start_index + sm.index_count) as u64,
                    };
                    let (s2, c2) = index_step(s1, islice);
                    (
                        s2,
                        c1 + c2 + seq![
                            PassCommandView::DrawIndexed {
                                indices: Range { start: 0, end: sm.index_count as u32 },
                                base_vertex: 0,
                                instances,
                            },
                        ],
                    )
                },
                None => (
                    s1,
                    c1 + seq![
                        PassCommandView::Draw { vertices: Range { start: 0, end: sm.vertex_count as u32 }, instances },
                    ],
                ),
            }
        },
        None => (s, Seq::empty()),
    }
}

/// The draws of batches (mesh, part, first instance, count), then of each
/// unbatched call (mesh, part, its instance) as a run of one instance.
pub open spec fn mesh_data_entries(
    batches: Seq<(u128, Option<SubMesh>, u32, u32)>,
    unbatched: Seq<(u128, Option<SubMesh>, u32)>,
) -> Seq<(u128, Option<SubMesh>, Range<u32>)> {
    Seq::new(
        batches.len(),
        |i: int| (batches[i].0, batches[i].1, Range { start: batches[i].2, end: (batches[i].2 + batches[i].3) as u32 }),
    ) + Seq::new(
        unbatched.len(),
        |i: int| (unbatched[i].0, unbatched[i].1, Range { start: unbatched[i].2, end: (unbatched[i].2 + 1) as u32 }),
    )
}

/// Drawing each entry in turn.
pub open spec fn run_mesh_data(
    s: RenderStateView,
    entries: Seq<(u128, Option<SubMesh>, Range<u32>)>,
    meshes: Seq<(u128, MeshDraw)>,
) -> (RenderStateView, Seq<PassCommandView>)
    decreases entries.len(),
{
    if entries.len() == 0 {
        (s, Seq::empty())
    } else {
        let (s1, c1) = run_mesh_data(s, entries.drop_last(), meshes);
        let e = entries.last();
        let (s2, c2) = mesh_data_step(s1, e.0, e.1, e.2, meshes);
        (s2, c1 + c2)
    }
}

/// Draws one entry (see `mesh_data_step`).
fn draw_mesh_data_entry(
    state: &mut RenderState,
    cmds: &mut Vec<PassCommand>,
    mesh_id: u128,
    sub_mesh: Option<SubMesh>,
    instances: Range<u32>,
    meshes: &[(u128, MeshDraw)],
)
    requires
        unique_ids(meshes@),
        span_fits(sub_mesh),
    ensures
        ({
            let (s, c) = mesh_data_step(old(state)@, mesh_id, sub_mesh, instances, meshes@);
            final(state)@ == s && command_views(final(cmds)@) == command_views(old(cmds)@) + c
        }),
{
    let mesh = match find(meshes, mesh_id) {
        Some(m) => m,
        None => {
            return ;
        },
    };
    let sm = match sub_mesh {
        Some(sm) => sm,
        None => SubMesh {
            start_vertex: 0,
            vertex_count: mesh.vertex_count as u64,
            start_index: 0,
            index_count: mesh.index_count as u64,
        },
    };
    let ghost c0 = command_views(cmds@);
    let vb = BufferSliceId { id: mesh.vertex_buffer.id, start: sm.start_vertex, end: sm.start_vertex + sm.vertex_count };
    let c1 = state.set_vertex_buffer(0, vb);
    push_sent(cmds, c1);
    match mesh.index_buffer {
        Some(ib) => {
            let islice = BufferSliceId { id: ib.id, start: sm.start_index, end: sm.start_index + sm.index_count };
            let c2 = state.set_index_buffer(islice);
            push_sent(cmds, c2);
            let d = state.draw_indexed(0..(sm.index_count as u32), 0, instances);
            push_command(cmds, d);
        },
        None => {
            let d = state.draw(0..(sm.vertex_count as u32), instances);
            push_command(cmds, d);
        },
    }
    proof {
        let (s, c) = mesh_data_step(old(state)@, mesh_id, sub_mesh, instances, meshes@);
        assert(command_views(cmds@) =~= c0 + c);
    }
}

/// Draws the calls of the views with per-instance mesh data: nothing when
/// the mesh data buffer does not exist yet; else the buffer at the vertex
/// slot after the material's attributes (`attribute_count`), then each
/// batch over its instances and each unbatched call over its one instance
/// (see `mesh_data_step`). Returns the commands the pass performs.
pub fn draw_mesh_data_calls(
    state: &mut RenderState,
    mesh_buffer: Option<BufferSliceId>,
    attribute_count: u32,
    batches: &[(u128, Option<SubMesh>, u32, u32)],
    unbatched: &[(u128, Option<SubMesh>, u32)],
    meshes: &[(u128, MeshDraw)],
) -> (r: Vec<PassCommand>)
    requires
        unique_ids(meshes@),
        forall|i: int|
            0 <= i < batches@.len() ==> span_fits(#[trigger] batches@[i].1) && batches@[i].2 + batches@[i].3
                <= u32::MAX,
        forall|i: int| 0 <= i < unbatched@.len() ==> span_fits(#[trigger] unbatched@[i].1) && unbatched@[i].2 < u32::MAX,
    ensures
        match mesh_buffer {
            None => r@.len() == 0 && final(state)@ == old(state)@,
            Some(mb) => {
                let (s0, c0) = vertex_step(old(state)@, attribute_count, mb);
                let (s1, c1) = run_mesh_data(s0, mesh_data_entries(batches@, unbatched@), meshes@);
                final(state)@ == s1 && command_views(r@) == c0 + c1
            },
        },
{
    let mut cmds: Vec<PassCommand> = Vec::new();
    let mb = match mesh_buffer {
        Some(mb) => mb,
        None => {
            return cmds;
        },
    };
    let c0 = state.set_vertex_buffer(attribute_count, mb);
    push_sent(&mut cmds, c0);
    let ghost s0 = state@;
    let ghost prelude = command_views(cmds@);
    let ghost entries = mesh_data_entries(batches@, unbatched@);
    let nb = batches.len();
    let mut i: usize = 0;
    while i < nb
        invariant
            nb == batches@.len(),
            i <= nb,
            unique_ids(meshes@),
            forall|j: int|
                0 <= j < batches@.len() ==> span_fits(#[trigger] batches@[j].1) && batches@[j].2 + batches@[j].3
                    <= u32::MAX,
            entries == mesh_data_entries(batches@, unbatched@),
            ({
                let (s, c) = run_mesh_data(s0, entries.subrange(0, i as int), meshes@);
                state@ == s && command_views(cmds@) == prelude + c
            }),
        decreases nb - i,
    {
        let (mesh_id, sub_mesh, index, size) = batches[i];
        let instances = index..(index + size);
        proof {
            assert(entries.subrange(0, i + 1).drop_last() =~= entries.subrange(0, i as int));
            assert(entries[i as int] == (mesh_id, sub_mesh, instances));
        }
        draw_mesh_data_entry(state, &mut cmds, mesh_id, sub_mesh, instances, meshes);
        proof {
            let (s, c) = run_mesh_data(s0, entries.subrange(0, i as int), meshes@);
            let (s2, c2) = mesh_data_step(s, mesh_id, sub_mesh, instances, meshes@);
            assert(prelude + c + c2 =~= prelude + (c + c2));
        }
        i = i + 1;
    }
    let nu = unbatched.len();
    let mut u: usize = 0;
    while u < nu
        invariant
            nb == batches@.len(),
            nu == unbatched@.len(),
            u <= nu,
            unique_ids(meshes@),
            forall|j: int| 0 <= j < unbatched@.len() ==> span_fits(#[trigger] unbatched@[j].1) && unbatched@[j].2 < u32::MAX,
            entries == mesh_data_entries(batches@, unbatched@),
            ({
                let (s, c) = run_mesh_data(s0, entries.subrange(0, nb + u), meshes@);
                state@ == s && command_views(cmds@) == prelude + c
            }),
        decreases nu - u,
    {
        let (mesh_id, sub_mesh, offset) = unbatched[u];
        let instances = offset..(offset + 1);
        proof {
            assert(entries.subrange(0, nb + u + 1).drop_last() =~= entries.subrange(0, nb + u));
            assert(entries[nb + u] == (mesh_id, sub_mesh, instances));
        }
        draw_mesh_data_entry(state, &mut cmds, mesh_id, sub_mesh, instances, meshes);
        proof {
            let (s, c) = run_mesh_data(s0, entries.subrange(0, nb + u), meshes@);
            let (s2, c2) = mesh_data_step(s, mesh_id, sub_mesh, instances, meshes@);
            assert(prelude + c + c2 =~= prelude + (c + c2));
        }
        u = u + 1;
    }
    proof {
        assert(entries.subrange(0, nb + nu) =~= entries);
    }
    cmds
}

/// Opaque materials overwrite what is drawn; transparent ones weigh the new
/// colour by its alpha and what is drawn by one minus that alpha, keep the
/// new alpha added to what remains of the old, and so differ from opaque.
pub proof fn lemma_blend_modes()
    ensures
        spec_blend_state(BlendMode::Opaque).color.src_factor == BlendFactor::One,
        spec_blend_state(BlendMode::Opaque).color.dst_factor == BlendFactor::Zero,
        spec_blend_state(BlendMode::Opaque).alpha.src_factor == BlendFactor::One,
        spec_blend_state(BlendMode::Opaque).alpha.dst_factor == BlendFactor::Zero,
        spec_blend_state(BlendMode::Transparent).color.src_factor == BlendFactor::SrcAlpha,
        spec_blend_state(BlendMode::Transparent).color.dst_factor == BlendFactor::OneMinusSrcAlpha,
        spec_blend_state(BlendMode::Transparent).alpha.src_factor == BlendFactor::One,
        spec_blend_state(BlendMode::Transparent).alpha.dst_factor == BlendFactor::OneMinusSrcAlpha,
        forall|m: BlendMode|
            (#[trigger] spec_blend_state(m)).color.operation == BlendOperation::Add
                && spec_blend_state(m).alpha.operation == BlendOperation::Add,
        spec_blend_state(BlendMode::Transparent) != spec_blend_state(BlendMode::Opaque),
{
}

} // verus!
