use crate::shader::{
    binding_added, shape_of, shapes_of, BufferLayout, ShaderBindGroup, ShaderBinding, ShaderBindingKind, ShaderMeta,
    ShaderValue, StorageAccess, ValueShape,
};
use vstd::prelude::*;

verus! {

/// The kind of a scalar in a shader module.
#[derive(Clone, Copy, PartialEq, Eq, Structural, Debug)]
pub enum ScalarClass {
    Sint,
    Uint,
    Float,
    Bool,
    AbstractInt,
    AbstractFloat,
}

/// The number of components of a vector (or the columns or rows of a matrix).
#[derive(Clone, Copy, PartialEq, Eq, Structural, Debug)]
pub enum VectorLen {
    Bi,
    Tri,
    Quad,
}

/// The dimension of an image.
#[derive(Clone, Copy, PartialEq, Eq, Structural, Debug)]
pub enum ImageDim {
    D1,
    D2,
    D3,
    Cube,
}

/// Where a global variable of a shader module lives.
#[derive(Clone, Copy, PartialEq, Eq, Structural, Debug)]
pub enum VariableSpace {
    Uniform,
    Storage { load: bool, store: bool },
    Other,
}

/// The type of a global variable, as far as the binding logic reads it:
/// scalars, vectors, matrices, arrays (of a fixed length or not), structs
/// (by the types of their members), images, samplers, and anything else.
pub enum TypeDesc {
    Scalar(ScalarClass),
    Vector(VectorLen),
    Matrix { columns: VectorLen, rows: VectorLen },
    Array { base: Box<TypeDesc>, count: Option<u32> },
    Struct(Vec<TypeDesc>),
    Image { dim: ImageDim, arrayed: bool },
    Sampler { comparison: bool },
    Other,
}

/// A global variable of a shader module that has a binding.
pub struct GlobalBinding {
    pub group: u32,
    pub binding: u32,
    pub space: VariableSpace,
    pub ty: TypeDesc,
}

/// What the metadata of a shader module is read from: the name of its
/// first entry point and its bound global variables, in order.
pub struct ModuleDesc {
    pub entry: String,
    pub globals: Vec<GlobalBinding>,
}

/// The value of a scalar.
pub open spec fn scalar_shape(k: ScalarClass) -> ValueShape {
    match k {
        ScalarClass::Sint => ValueShape::SInt,
        ScalarClass::Uint => ValueShape::UInt,
        ScalarClass::Float => ValueShape::Float,
        ScalarClass::Bool => ValueShape::Bool,
        _ => ValueShape::Other,
    }
}

/// The value of a vector.
pub open spec fn vector_shape(s: VectorLen) -> ValueShape {
    match s {
        VectorLen::Bi => ValueShape::Vec2,
        VectorLen::Tri => ValueShape::Vec3,
        VectorLen::Quad => ValueShape::Vec4,
    }
}

/// The value of a matrix: square ones are known, others are not.
pub open spec fn matrix_shape(columns: VectorLen, rows: VectorLen) -> ValueShape {
    match (columns, rows) {
        (VectorLen::Bi, VectorLen::Bi) => ValueShape::Mat2,
        (VectorLen::Tri, VectorLen::Tri) => ValueShape::Mat3,
        (VectorLen::Quad, VectorLen::Quad) => ValueShape::Mat4,
        _ => ValueShape::Other,
    }
}

/// Whether a type stands for a value (it is no image, sampler or other type).
pub open spec fn is_value_type(t: TypeDesc) -> bool {
    match t {
        TypeDesc::Image { .. } => false,
        TypeDesc::Sampler { .. } => false,
        TypeDesc::Other => false,
        _ => true,
    }
}

/// The value of a type, if it has one: scalars, vectors and matrices have
/// theirs; an array has one when its element has; a struct has one when
/// each of its value members has.
pub open spec fn element_shape(t: TypeDesc) -> Option<ValueShape>
    decreases t, 2nat,
{
    match t {
        TypeDesc::Scalar(k) => Some(scalar_shape(k)),
        TypeDesc::Vector(s) => Some(vector_shape(s)),
        TypeDesc::Matrix { columns, rows } => Some(matrix_shape(columns, rows)),
        TypeDesc::Array { base, count } => array_shape(*base, count),
        TypeDesc::Struct(members) => match struct_members(members@) {
            Some(vs) => Some(ValueShape::Struct(vs)),
            None => None,
        },
        _ => None,
    }
}

/// The value of an array of `base`: none when the element has none.
pub open spec fn array_shape(base: TypeDesc, count: Option<u32>) -> Option<ValueShape>
    decreases base, 3nat,
{
    match element_shape(base) {
        Some(v) => Some(ValueShape::Array(Box::new(v), count)),
        None => None,
    }
}

/// The values of the members of a struct, skipping members that are no
/// values; none when a value member has none.
pub open spec fn struct_members(members: Seq<TypeDesc>) -> Option<Seq<ValueShape>>
    decreases members, 1nat,
{
    if members.len() == 0 {
        Some(Seq::empty())
    } else {
        match struct_members(members.drop_last()) {
            None => None,
            Some(vs) => {
                let t = members[members.len() - 1];
                if !is_value_type(t) {
                    Some(vs)
                } else {
                    match element_shape(t) {
                        Some(v) => Some(vs.push(v)),
                        None => None,
                    }
                }
            },
        }
    }
}

/// A struct whose first `k` members have no value has none.
pub proof fn lemma_struct_members_fail(members: Seq<TypeDesc>, k: int)
    requires
        0 <= k <= members.len(),
        struct_members(members.subrange(0, k)) is None,
    ensures
        struct_members(members) is None,
    decreases members.len(),
{
    if k == members.len() {
        assert(members.subrange(0, k) =~= members);
    } else {
        assert(members.drop_last().subrange(0, k) =~= members.subrange(0, k));
        lemma_struct_members_fail(members.drop_last(), k);
    }
}

/// The shape of an optional value.
pub open spec fn opt_shape(v: Option<ShaderValue>) -> Option<ValueShape> {
    match v {
        Some(x) => Some(shape_of(x)),
        None => None,
    }
}

pub fn scalar_value(k: ScalarClass) -> (r: ShaderValue)
    ensures
        shape_of(r) == scalar_shape(k),
{
    match k {
        ScalarClass::Sint => ShaderValue::SInt,
        ScalarClass::Uint => ShaderValue::UInt,
        ScalarClass::Float => ShaderValue::Float,
        ScalarClass::Bool => ShaderValue::Bool,
        ScalarClass::AbstractInt => ShaderValue::Other,
        ScalarClass::AbstractFloat => ShaderValue::Other,
    }
}

pub fn vector_value(s: VectorLen) -> (r: ShaderValue)
    ensures
        shape_of(r) == vector_shape(s),
{
    match s {
        VectorLen::Bi => ShaderValue::Vec2,
        VectorLen::Tri => ShaderValue::Vec3,
        VectorLen::Quad => ShaderValue::Vec4,
    }
}

pub fn matrix_value(columns: VectorLen, rows: VectorLen) -> (r: ShaderValue)
    ensures
        shape_of(r) == matrix_shape(columns, rows),
{
    match (columns, rows) {
        (VectorLen::Bi, VectorLen::Bi) => ShaderValue::Mat2,
        (VectorLen::Tri, VectorLen::Tri) => ShaderValue::Mat3,
        (VectorLen::Quad, VectorLen::Quad) => ShaderValue::Mat4,
        _ => ShaderValue::Other,
    }
}

/// The value of a type, if it has one.
pub fn element_value(t: &TypeDesc) -> (r: Option<ShaderValue>)
    ensures
        opt_shape(r) == element_shape(*t),
    decreases *t, 2nat,
{
    match t {
        TypeDesc::Scalar(k) => Some(scalar_value(*k)),
        TypeDesc::Vector(s) => Some(vector_value(*s)),
        TypeDesc::Matrix { columns, rows } => Some(matrix_value(*columns, *rows)),
        TypeDesc::Array { base, count } => array_value(base, *count),
        TypeDesc::Struct(members) => struct_value(members),
        _ => None,
    }
}

/// The value of an array of `base`, if its element has one.
pub fn array_value(base: &TypeDesc, count: Option<u32>) -> (r: Option<ShaderValue>)
    ensures
        opt_shape(r) == array_shape(*base, count),
    decreases *base, 3nat,
{
    match element_value(base) {
        Some(v) => Some(ShaderValue::Array(Box::new(v), count)),
        None => None,
    }
}

/// The value of a struct with these members, if each value member has one.
pub fn struct_value(members: &Vec<TypeDesc>) -> (r: Option<ShaderValue>)
    ensures
        opt_shape(r) == (match struct_members(members@) {
            Some(vs) => Some(ValueShape::Struct(vs)),
            None => None::<ValueShape>,
        }),
    decreases *members, 1nat,
{
    let mut values: Vec<ShaderValue> = Vec::new();
    let mut i: usize = 0;
    proof {
        assert(members@.subrange(0, 0) =~= Seq::<TypeDesc>::empty());
    }
    while i < members.len()
        invariant
            i <= members@.len(),
            struct_members(members@.subrange(0, i as int)) == Some(shapes_of(values@)),
        decreases members@.len() - i,
    {
        let ghost sub1 = members@.subrange(0, i + 1);
        proof {
            assert(sub1.drop_last() =~= members@.subrange(0, i as int));
            assert(sub1[sub1.len() - 1] == members@[i as int]);
            assert(decreases_to!(*members => members@[i as int]));
        }
        let t = &members[i];
        match t {
            TypeDesc::Image { .. } => {},
            TypeDesc::Sampler { .. } => {},
            TypeDesc::Other => {},
            _ => {
                match element_value(t) {
                    Some(v) => {
                        let ghost before = values@;
                        values.push(v);
                        proof {
                            assert(values@.drop_last() =~= before);
                        }
                    },
                    None => {
                        proof {
                            lemma_struct_members_fail(members@, i + 1);
                        }
                        return None;
                    },
                }
            },
        }
        i = i + 1;
    }
    proof {
        assert(members@.subrange(0, i as int) =~= members@);
    }
    Some(ShaderValue::Struct(values))
}

/// A binding kind with its buffer layouts as sequences of value shapes.
pub enum KindShape {
    Texture1D,
    Texture2D,
    Texture2DArray,
    Texture3D,
    Texture3DArray,
    TextureCube,
    Sampler { compare: bool },
    Uniform { layout: Seq<ValueShape>, count: Option<u32> },
    Storage { layout: Seq<ValueShape>, access: StorageAccess, count: Option<u32> },
}

/// The shape of a binding kind.
pub open spec fn kind_shape(k: ShaderBindingKind) -> KindShape {
    match k {
        ShaderBindingKind::Texture1D => KindShape::Texture1D,
        ShaderBindingKind::Texture2D => KindShape::Texture2D,
        ShaderBindingKind::Texture2DArray => KindShape::Texture2DArray,
        ShaderBindingKind::Texture3D => KindShape::Texture3D,
        ShaderBindingKind::Texture3DArray => KindShape::Texture3DArray,
        ShaderBindingKind::TextureCube => KindShape::TextureCube,
        ShaderBindingKind::Sampler { compare } => KindShape::Sampler { compare },
        ShaderBindingKind::Uniform { layout, count } => KindShape::Uniform { layout: shapes_of(layout@), count },
        ShaderBindingKind::Storage { layout, access, count } => KindShape::Storage {
            layout: shapes_of(layout@),
            access,
            count,
        },
    }
}

/// The shape of an optional binding kind.
pub open spec fn opt_kind_shape(k: Option<ShaderBindingKind>) -> Option<KindShape> {
    match k {
        Some(x) => Some(kind_shape(x)),
        None => None,
    }
}

/// The access of a storage buffer that is loaded and/or stored.
pub open spec fn access_of(load: bool, store: bool) -> StorageAccess {
    if load && store {
        StorageAccess::ReadWrite
    } else if store && !load {
        StorageAccess::Write
    } else {
        StorageAccess::Read
    }
}

/// A buffer binding of `layout` in `space`: uniform or storage; none in
/// another address space.
pub open spec fn buffer_kind(space: VariableSpace, layout: Seq<ValueShape>, count: Option<u32>) -> Option<KindShape> {
    match space {
        VariableSpace::Uniform => Some(KindShape::Uniform { layout, count }),
        VariableSpace::Storage { load, store } => Some(
            KindShape::Storage { layout, access: access_of(load, store), count },
        ),
        VariableSpace::Other => None,
    }
}

/// The fixed length of an array value.
pub open spec fn value_count(v: ValueShape) -> Option<u32> {
    match v {
        ValueShape::Array(_, c) => c,
        _ => None,
    }
}

/// A buffer binding holding the value of a composite type, when it has one
/// (with the length of an array value); an empty layout otherwise.
pub open spec fn composite_kind(space: VariableSpace, value: Option<ValueShape>) -> Option<KindShape> {
    match value {
        Some(v) => buffer_kind(space, seq![v], value_count(v)),
        None => buffer_kind(space, Seq::empty(), None),
    }
}

/// What a global of type `t` in `space` binds: a buffer of its value for
/// scalars, vectors, matrices, arrays and structs in the uniform or storage
/// space; a texture for an image (a cube that is not arrayed counts as a 2D
/// texture, an arrayed one as a cube); a sampler for a sampler; nothing else.
pub open spec fn binding_kind_shape(space: VariableSpace, t: TypeDesc) -> Option<KindShape> {
    match t {
        TypeDesc::Scalar(k) => buffer_kind(space, seq![scalar_shape(k)], None),
        TypeDesc::Vector(v) => buffer_kind(space, seq![vector_shape(v)], None),
        TypeDesc::Matrix { columns, rows } => buffer_kind(space, seq![matrix_shape(columns, rows)], None),
        TypeDesc::Array { base, count } => composite_kind(space, array_shape(*base, count)),
        TypeDesc::Struct(_) => composite_kind(space, element_shape(t)),
        TypeDesc::Image { dim, arrayed } => Some(
            match dim {
                ImageDim::D1 => KindShape::Texture1D,
                ImageDim::D2 => if arrayed {
                    KindShape::Texture2DArray
                } else {
                    KindShape::Texture2D
                },
                ImageDim::D3 => KindShape::Texture3D,
                ImageDim::Cube => if arrayed {
                    KindShape::TextureCube
                } else {
                    KindShape::Texture2D
                },
            },
        ),
        TypeDesc::Sampler { comparison } => Some(KindShape::Sampler { compare: comparison }),
        TypeDesc::Other => None,
    }
}

/// A layout holding `value`.
fn layout_of(value: ShaderValue) -> (r: BufferLayout)
    ensures
        shapes_of(r@) == seq![shape_of(value)],
{
    let mut layout = BufferLayout::new();
    layout.add(value);
    proof {
        lemma_single_shape(layout@, value);
    }
    layout
}

/// A one-value sequence has the one shape.
proof fn lemma_single_shape(s: Seq<ShaderValue>, value: ShaderValue)
    requires
        s == seq![value],
    ensures
        shapes_of(s) == seq![shape_of(value)],
{
    assert(s.drop_last() =~= Seq::<ShaderValue>::empty());
    assert(shapes_of(s.drop_last()) == Seq::<ValueShape>::empty());
    assert(s.last() == value);
    assert(shapes_of(s) =~= seq![shape_of(value)]);
}

/// A buffer binding of `layout` in `space`.
fn buffer_binding(space: VariableSpace, layout: BufferLayout, count: Option<u32>) -> (r: Option<ShaderBindingKind>)
    ensures
        opt_kind_shape(r) == buffer_kind(space, shapes_of(layout@), count),
{
    match space {
        VariableSpace::Uniform => Some(ShaderBindingKind::Uniform { layout, count }),
        VariableSpace::Storage { load, store } => Some(
            ShaderBindingKind::Storage { layout, access: StorageAccess::from_flags(load, store), count },
        ),
        VariableSpace::Other => None,
    }
}

/// A buffer binding holding a composite value, when there is one.
fn composite_binding(space: VariableSpace, value: Option<ShaderValue>) -> (r: Option<ShaderBindingKind>)
    ensures
        opt_kind_shape(r) == composite_kind(space, opt_shape(value)),
{
    let mut layout = BufferLayout::new();
    let mut count = None;
    match value {
        Some(v) => {
            count = v.count();
            layout.add(v);
            proof {
                lemma_single_shape(layout@, v);
            }
        },
        None => {
            proof {
                assert(shapes_of(layout@) =~= Seq::<ValueShape>::empty());
            }
        },
    }
    buffer_binding(space, layout, count)
}

/// What a global of type `ty` in `space` binds, if anything.
pub fn binding_kind(space: VariableSpace, ty: &TypeDesc) -> (r: Option<ShaderBindingKind>)
    ensures
        opt_kind_shape(r) == binding_kind_shape(space, *ty),
{
    match ty {
        TypeDesc::Scalar(k) => {
            let v = scalar_value(*k);
            let layout = layout_of(v);
            buffer_binding(space, layout, None)
        },
        TypeDesc::Vector(s) => {
            let v = vector_value(*s);
            let layout = layout_of(v);
            buffer_binding(space, layout, None)
        },
        TypeDesc::Matrix { columns, rows } => {
            let v = matrix_value(*columns, *rows);
            let layout = layout_of(v);
            buffer_binding(space, layout, None)
        },
        TypeDesc::Array { base, count } => composite_binding(space, array_value(base, *count)),
        TypeDesc::Struct(members) => composite_binding(space, struct_value(members)),
        TypeDesc::Image { dim, arrayed } => Some(
            match dim {
                ImageDim::D1 => ShaderBindingKind::Texture1D,
                ImageDim::D2 => if *arrayed {
                    ShaderBindingKind::Texture2DArray
                } else {
                    ShaderBindingKind::Texture2D
                },
                ImageDim::D3 => ShaderBindingKind::Texture3D,
                ImageDim::Cube => if *arrayed {
                    ShaderBindingKind::TextureCube
                } else {
                    ShaderBindingKind::Texture2D
                },
            },
        ),
        TypeDesc::Sampler { comparison } => Some(ShaderBindingKind::Sampler { compare: *comparison }),
        TypeDesc::Other => None,
    }
}

/// The bind groups after the global `g`: when it binds something, a slot
/// of its kind, numbered by its binding, is added to the first group with
/// its group number (or to a new group); otherwise nothing changes.
pub open spec fn binding_step(g: GlobalBinding, before: Seq<ShaderBindGroup>, after: Seq<ShaderBindGroup>) -> bool {
    match binding_kind_shape(g.space, g.ty) {
        None => after == before,
        Some(ks) => exists|b: ShaderBinding|
            b.binding == g.binding && kind_shape(b.kind) == ks && #[trigger] binding_added(before, after, g.group, b),
    }
}

/// `groups` are the bind groups built from `globals`, each global in turn,
/// starting from none.
pub open spec fn bindings_built(globals: Seq<GlobalBinding>, groups: Seq<ShaderBindGroup>) -> bool {
    exists|states: Seq<Seq<ShaderBindGroup>>|
        #![trigger states.len(), states[0]]
        states.len() == globals.len() + 1 && states[0].len() == 0 && states[globals.len() as int] == groups && forall|
            k: int,
        |
            0 <= k < globals.len() ==> #[trigger] binding_step(globals[k], states[k], states[k + 1])
}

impl ShaderMeta {
    /// The metadata of a shader module: its first entry point, no inputs or
    /// outputs, no instance count, and a binding slot for each bound global
    /// variable that binds something.
    pub fn from_module(module: &ModuleDesc) -> (r: ShaderMeta)
        ensures
            r.spec_entry() == module.entry@,
            r.spec_inputs().len() == 0,
            r.spec_outputs().len() == 0,
            r.spec_instances() == None::<u32>,
            bindings_built(module.globals@, r.spec_bindings()),
    {
        let mut meta = ShaderMeta::new(module.entry.clone());
        let mut i: usize = 0;
        let ghost mut states: Seq<Seq<ShaderBindGroup>> = seq![meta.spec_bindings()];
        while i < module.globals.len()
            invariant
                i <= module.globals@.len(),
                meta.spec_entry() == module.entry@,
                meta.spec_inputs().len() == 0,
                meta.spec_outputs().len() == 0,
                meta.spec_instances() == None::<u32>,
                states.len() == i + 1,
                states[0].len() == 0,
                states[i as int] == meta.spec_bindings(),
                forall|k: int| 0 <= k < i ==> #[trigger] binding_step(module.globals@[k], states[k], states[k + 1]),
            decreases module.globals@.len() - i,
        {
            let g = &module.globals[i];
            let ghost before = meta.spec_bindings();
            match binding_kind(g.space, &g.ty) {
                Some(kind) => {
                    let ghost b = ShaderBinding { binding: g.binding, kind };
                    meta.add_binding(g.group, g.binding, kind);
                    proof {
                        assert(binding_added(before, meta.spec_bindings(), g.group, b));
                    }
                },
                None => {},
            }
            proof {
                assert(binding_step(*g, before, meta.spec_bindings()));
                states = states.push(meta.spec_bindings());
            }
            i = i + 1;
        }
        proof {
            assert(states.len() == module.globals@.len() + 1 && states[0].len() == 0);
        }
        meta
    }
}

} // verus!
