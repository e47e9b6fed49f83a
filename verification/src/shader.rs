use crate::device::{DeviceCommand, RenderDevice};
use vstd::prelude::*;

verus! {

/// The pipeline stage a shader runs in.
#[derive(Clone, Copy, PartialEq, Eq, Structural, Debug)]
pub enum ShaderStage {
    Vertex,
    Fragment,
    Compute,
}

/// The type of a value a shader reads or writes.
#[derive(PartialEq, Eq, Debug)]
pub enum ShaderValue {
    Float,
    UInt,
    SInt,
    Bool,
    Vec2,
    Vec3,
    Vec4,
    Color,
    Mat2,
    Mat3,
    Mat4,
    /// An array of a value type, of a fixed length or of a length known at run time.
    Array(Box<ShaderValue>, Option<u32>),
    Struct(Vec<ShaderValue>),
    Other,
}

/// The mathematical shape of a [`ShaderValue`]: the same tree, with sequences.
pub enum ValueShape {
    Float,
    UInt,
    SInt,
    Bool,
    Vec2,
    Vec3,
    Vec4,
    Color,
    Mat2,
    Mat3,
    Mat4,
    Array(Box<ValueShape>, Option<u32>),
    Struct(Seq<ValueShape>),
    Other,
}

/// The shape of a value.
pub open spec fn shape_of(v: ShaderValue) -> ValueShape
    decreases v, 1nat,
{
    match v {
        ShaderValue::Float => ValueShape::Float,
        ShaderValue::UInt => ValueShape::UInt,
        ShaderValue::SInt => ValueShape::SInt,
        ShaderValue::Bool => ValueShape::Bool,
        ShaderValue::Vec2 => ValueShape::Vec2,
        ShaderValue::Vec3 => ValueShape::Vec3,
        ShaderValue::Vec4 => ValueShape::Vec4,
        ShaderValue::Color => ValueShape::Color,
        ShaderValue::Mat2 => ValueShape::Mat2,
        ShaderValue::Mat3 => ValueShape::Mat3,
        ShaderValue::Mat4 => ValueShape::Mat4,
        ShaderValue::Array(inner, count) => ValueShape::Array(Box::new(shape_of(*inner)), count),
        ShaderValue::Struct(values) => ValueShape::Struct(shapes_of(values@)),
        ShaderValue::Other => ValueShape::Other,
    }
}

/// The shapes of a sequence of values, in order.
pub open spec fn shapes_of(s: Seq<ShaderValue>) -> Seq<ValueShape>
    decreases s, 0nat,
{
    if s.len() == 0 {
        Seq::empty()
    } else {
        shapes_of(s.drop_last()).push(shape_of(s.last()))
    }
}

/// Size in bytes of a value of this shape; an array of run-time length counts 0.
pub open spec fn shape_size(s: ValueShape) -> int
    decreases s, 1nat,
{
    match s {
        ValueShape::Float => 4,
        ValueShape::UInt => 4,
        ValueShape::SInt => 4,
        ValueShape::Bool => 1,
        ValueShape::Vec2 => 8,
        ValueShape::Vec3 => 12,
        ValueShape::Vec4 => 16,
        ValueShape::Color => 16,
        ValueShape::Mat2 => 16,
        ValueShape::Mat3 => 36,
        ValueShape::Mat4 => 64,
        ValueShape::Array(inner, count) => match count {
            Some(c) => shape_size(*inner) * c,
            None => 0,
        },
        ValueShape::Struct(values) => shapes_size(values),
        ValueShape::Other => 0,
    }
}

/// The summed size of a sequence of shapes.
pub open spec fn shapes_size(s: Seq<ValueShape>) -> int
    decreases s, 0nat,
{
    if s.len() == 0 {
        0
    } else {
        shapes_size(s.drop_last()) + shape_size(s.last())
    }
}

/// Every size met while measuring the shape fits in a `usize`, and every
/// fixed array length is positive.
pub open spec fn shape_bounded(s: ValueShape) -> bool
    decreases s, 1nat,
{
    &&& shape_size(s) <= usize::MAX
    &&& match s {
        ValueShape::Array(inner, count) => match count {
            Some(c) => c > 0 && shape_bounded(*inner),
            None => true,
        },
        ValueShape::Struct(values) => shapes_bounded(values),
        _ => true,
    }
}

/// Every shape of the sequence is bounded.
pub open spec fn shapes_bounded(s: Seq<ValueShape>) -> bool
    decreases s, 0nat,
{
    if s.len() == 0 {
        true
    } else {
        shapes_bounded(s.drop_last()) && shape_bounded(s.last())
    }
}

pub proof fn lemma_shape_size_nonneg(s: ValueShape)
    ensures
        shape_size(s) >= 0,
    decreases s, 1nat,
{
    match s {
        ValueShape::Array(inner, count) => {
            lemma_shape_size_nonneg(*inner);
            match count {
                Some(c) => {
                    assert(shape_size(*inner) * c >= 0) by (nonlinear_arith)
                        requires
                            shape_size(*inner) >= 0,
                            c >= 0,
                    ;
                },
                None => {},
            }
        },
        ValueShape::Struct(values) => lemma_shapes_size_nonneg(values),
        _ => {},
    }
}

pub proof fn lemma_shapes_size_nonneg(s: Seq<ValueShape>)
    ensures
        shapes_size(s) >= 0,
    decreases s, 0nat,
{
    if s.len() > 0 {
        lemma_shapes_size_nonneg(s.drop_last());
        lemma_shape_size_nonneg(s.last());
    }
}

/// A prefix of a sequence is no larger, and bounded when the sequence is.
pub proof fn lemma_shapes_prefix(s: Seq<ValueShape>, n: int)
    requires
        0 <= n <= s.len(),
    ensures
        shapes_size(s.take(n)) <= shapes_size(s),
        shapes_bounded(s) ==> shapes_bounded(s.take(n)),
        shapes_bounded(s) && n < s.len() ==> shape_bounded(s[n]),
        n < s.len() ==> shapes_size(s.take(n + 1)) == shapes_size(s.take(n)) + shape_size(s[n]),
    decreases s.len(),
{
    if n < s.len() {
        assert(s.take(n + 1).drop_last() =~= s.take(n));
        assert(s.take(n + 1).last() == s[n]);
    }
    if n == s.len() {
        assert(s.take(n) =~= s);
    } else {
        lemma_shapes_prefix(s.drop_last(), n);
        assert(s.drop_last().take(n) =~= s.take(n));
        lemma_shape_size_nonneg(s.last());
        if n < s.len() - 1 {
            assert(s.drop_last()[n] == s[n]);
        }
    }
}

/// The shape of a prefix is the prefix of the shapes.
pub proof fn lemma_shapes_of_take(s: Seq<ShaderValue>, n: int)
    requires
        0 <= n <= s.len(),
    ensures
        shapes_of(s).len() == s.len(),
        shapes_of(s.take(n)) == shapes_of(s).take(n),
        n < s.len() ==> shapes_of(s)[n] == shape_of(s[n]),
    decreases s.len(),
{
    if s.len() == 0 {
        assert(s.take(n) =~= s);
        assert(shapes_of(s).take(n) =~= shapes_of(s));
    } else {
        let d = s.drop_last();
        if n == s.len() {
            lemma_shapes_of_take(d, n - 1);
            assert(s.take(n) =~= s);
            assert(shapes_of(s).take(n) =~= shapes_of(s));
        } else {
            lemma_shapes_of_take(d, n);
            assert(d.take(n) =~= s.take(n));
            assert(shapes_of(s).take(n) =~= shapes_of(d).take(n));
            if n < s.len() - 1 {
                assert(d[n] == s[n]);
            }
        }
    }
}


/// The summed size of a sequence of values.
fn sum_sizes(values: &Vec<ShaderValue>) -> (r: usize)
    requires
        shapes_bounded(shapes_of(values@)),
        shapes_size(shapes_of(values@)) <= usize::MAX,
    ensures
        r == shapes_size(shapes_of(values@)),
    decreases values@, 0nat,
{
    let mut total: usize = 0;
    let mut i: usize = 0;
    proof {
        lemma_shapes_of_take(values@, 0);
        assert(shapes_of(values@).take(0) =~= Seq::<ValueShape>::empty());
    }
    while i < values.len()
        invariant
            i <= values@.len(),
            total == shapes_size(shapes_of(values@).take(i as int)),
            shapes_bounded(shapes_of(values@)),
            shapes_size(shapes_of(values@)) <= usize::MAX,
        decreases values@.len() - i,
    {
        proof {
            lemma_shapes_of_take(values@, i as int);
            lemma_shapes_prefix(shapes_of(values@), i as int);
            lemma_shapes_prefix(shapes_of(values@), i as int + 1);
            assert(decreases_to!(values@ => values@[i as int]));
        }
        let s = values[i].size();
        total = total + s;
        i = i + 1;
    }
    proof {
        lemma_shapes_of_take(values@, i as int);
        assert(shapes_of(values@).take(i as int) =~= shapes_of(values@));
    }
    total
}

impl ShaderValue {
    /// Size in bytes: the sum over a struct's fields, the element size times
    /// the length for a fixed array, 0 for an array of run-time length.
    pub fn size(&self) -> (r: usize)
        requires
            shape_bounded(shape_of(*self)),
        ensures
            r == shape_size(shape_of(*self)),
        decreases *self, 1nat,
    {
        match self {
            ShaderValue::Float => 4,
            ShaderValue::UInt => 4,
            ShaderValue::SInt => 4,
            ShaderValue::Bool => 1,
            ShaderValue::Vec2 => 8,
            ShaderValue::Vec3 => 12,
            ShaderValue::Vec4 => 16,
            ShaderValue::Color => 16,
            ShaderValue::Mat2 => 16,
            ShaderValue::Mat3 => 36,
            ShaderValue::Mat4 => 64,
            ShaderValue::Array(value, count) => match count {
                Some(c) => {
                    let inner = value.size();
                    proof {
                        lemma_shape_size_nonneg(shape_of(**value));
                    }
                    inner * (*c as usize)
                },
                None => 0,
            },
            ShaderValue::Struct(values) => sum_sizes(values),
            ShaderValue::Other => 0,
        }
    }

    /// The fixed length of an array value; `None` for anything else.
    pub fn count(&self) -> (r: Option<u32>)
        ensures
            r == match *self {
                ShaderValue::Array(_, c) => c,
                _ => None,
            },
    {
        match self {
            ShaderValue::Array(_, c) => *c,
            _ => None,
        }
    }
}

/// The values a buffer binding holds, in order.
#[derive(PartialEq, Eq, Debug)]
pub struct BufferLayout {
    values: Vec<ShaderValue>,
}

impl View for BufferLayout {
    type V = Seq<ShaderValue>;

    closed spec fn view(&self) -> Seq<ShaderValue> {
        self.values@
    }
}

/// Rounds `size` up to a multiple of `alignment`.
pub open spec fn spec_align_up(size: int, alignment: int) -> int {
    if size % alignment == 0 {
        size
    } else {
        size + alignment - size % alignment
    }
}

impl BufferLayout {
    pub fn new() -> (r: BufferLayout)
        ensures
            r@ == Seq::<ShaderValue>::empty(),
    {
        BufferLayout { values: Vec::new() }
    }

    pub fn add(&mut self, value: ShaderValue)
        ensures
            final(self)@ == old(self)@.push(value),
    {
        self.values.push(value);
    }

    /// The values, in order.
    pub fn iter(&self) -> (r: &[ShaderValue])
        ensures
            r@ == self@,
    {
        self.values.as_slice()
    }

    pub fn len(&self) -> (r: usize)
        ensures
            r == self@.len(),
    {
        self.values.len()
    }

    /// The summed size of the values.
    pub fn size(&self) -> (r: usize)
        requires
            shapes_bounded(shapes_of(self@)),
            shapes_size(shapes_of(self@)) <= usize::MAX,
        ensures
            r == shapes_size(shapes_of(self@)),
    {
        let mut total: usize = 0;
        let mut i: usize = 0;
        proof {
            lemma_shapes_of_take(self@, 0);
            assert(shapes_of(self@).take(0) =~= Seq::<ValueShape>::empty());
        }
        while i < self.values.len()
            invariant
                i <= self@.len(),
                total == shapes_size(shapes_of(self@).take(i as int)),
                shapes_bounded(shapes_of(self@)),
                shapes_size(shapes_of(self@)) <= usize::MAX,
            decreases self@.len() - i,
        {
            proof {
                lemma_shapes_of_take(self@, i as int);
                lemma_shapes_prefix(shapes_of(self@), i as int);
                lemma_shapes_prefix(shapes_of(self@), i as int + 1);
            }
            let s = self.values[i].size();
            total = total + s;
            i = i + 1;
        }
        proof {
            lemma_shapes_of_take(self@, i as int);
            assert(shapes_of(self@).take(i as int) =~= shapes_of(self@));
        }
        total
    }

    /// The size rounded up to a multiple of `alignment`.
    pub fn aligned_size(&self, alignment: usize) -> (r: usize)
        requires
            alignment > 0,
            shapes_bounded(shapes_of(self@)),
            spec_align_up(shapes_size(shapes_of(self@)), alignment as int) <= usize::MAX,
        ensures
            r == spec_align_up(shapes_size(shapes_of(self@)), alignment as int),
    {
        proof {
            lemma_shapes_size_nonneg(shapes_of(self@));
        }
        let size = self.size();
        let remainder = size % alignment;
        if remainder == 0 {
            size
        } else {
            size + (alignment - remainder)
        }
    }
}

/// How a shader accesses a storage buffer.
#[derive(Clone, Copy, PartialEq, Eq, Structural, Debug)]
pub enum StorageAccess {
    Read,
    Write,
    ReadWrite,
}

impl StorageAccess {
    /// From whether the shader loads and whether it stores; neither counts as a read.
    pub fn from_flags(load: bool, store: bool) -> (r: StorageAccess)
        ensures
            r == (if load && store {
                StorageAccess::ReadWrite
            } else if store && !load {
                StorageAccess::Write
            } else {
                StorageAccess::Read
            }),
    {
        match (load, store) {
            (true, true) => StorageAccess::ReadWrite,
            (true, false) => StorageAccess::Read,
            (false, true) => StorageAccess::Write,
            _ => StorageAccess::Read,
        }
    }
}

/// What a binding slot of a shader holds.
#[derive(PartialEq, Eq, Debug)]
pub enum ShaderBindingKind {
    Texture1D,
    Texture2D,
    Texture2DArray,
    Texture3D,
    Texture3DArray,
    TextureCube,
    Sampler { compare: bool },
    Uniform { layout: BufferLayout, count: Option<u32> },
    Storage { layout: BufferLayout, access: StorageAccess, count: Option<u32> },
}

/// One binding slot of a shader.
#[derive(PartialEq, Eq, Debug)]
pub struct ShaderBinding {
    pub binding: u32,
    pub kind: ShaderBindingKind,
}

/// The binding slots a shader reads in one bind group.
#[derive(PartialEq, Eq, Debug)]
pub struct ShaderBindGroup {
    group: u32,
    bindings: Vec<ShaderBinding>,
}

impl ShaderBindGroup {
    pub closed spec fn spec_group(&self) -> u32 {
        self.group
    }

    pub closed spec fn spec_bindings(&self) -> Seq<ShaderBinding> {
        self.bindings@
    }

    /// The index of the group.
    pub fn group(&self) -> (r: u32)
        ensures
            r == self.spec_group(),
    {
        self.group
    }

    /// The slots of the group, in the order they were met.
    pub fn bindings(&self) -> (r: &[ShaderBinding])
        ensures
            r@ == self.spec_bindings(),
    {
        self.bindings.as_slice()
    }
}

/// A value the runtime provides to a shader.
#[derive(Clone, Copy, PartialEq, Eq, Structural, Debug)]
pub enum BuiltinValue {
    VertexIndex,
    InstanceIndex,
    Position,
    FrontFacing,
    FragDepth,
    SampleIndex,
    SampleMask,
    LocalInvocationId,
    LocalInvocationIndex,
    GlobalInvocationId,
    WorkGroupId,
    NumWorkGroups,
}

/// An attribute attached to a shader input or output.
#[derive(Clone, Copy, PartialEq, Eq, Structural, Debug)]
pub enum ShaderAttribute {
    Align(u32),
    Binding(u32),
    BlendSrc(bool),
    Builtin(BuiltinValue),
    Group(u32),
    Id(u32),
    Location(u32),
    Size(u32),
    WorkGroupSize { x: u32, y: Option<u32>, z: Option<u32> },
}

/// A value a shader stage takes in.
#[derive(PartialEq, Eq, Debug)]
pub struct ShaderInput {
    pub value: ShaderValue,
    pub attribute: ShaderAttribute,
}

/// A value a shader stage puts out.
#[derive(PartialEq, Eq, Debug)]
pub struct ShaderOuput(pub ShaderInput);

/// The index of the first group numbered `group`, or -1.
pub open spec fn find_group(groups: Seq<ShaderBindGroup>, group: u32) -> int
    decreases groups.len(),
{
    if groups.len() == 0 {
        -1
    } else {
        let k = find_group(groups.drop_last(), group);
        if k >= 0 {
            k
        } else if groups.last().spec_group() == group {
            groups.len() - 1
        } else {
            -1
        }
    }
}

pub proof fn lemma_find_group(groups: Seq<ShaderBindGroup>, group: u32)
    ensures
        -1 <= find_group(groups, group) < groups.len(),
        find_group(groups, group) >= 0 ==> groups[find_group(groups, group)].spec_group() == group,
        forall|k: int|
            0 <= k < groups.len() && (find_group(groups, group) < 0 || k < find_group(groups, group))
                ==> #[trigger] groups[k].spec_group() != group,
    decreases groups.len(),
{
    if groups.len() > 0 {
        lemma_find_group(groups.drop_last(), group);
        assert forall|k: int|
            0 <= k < groups.len() - 1 implies #[trigger] groups[k] == groups.drop_last()[k] by {}
    }
}

/// `after` is `before` with `binding` added to the first group numbered
/// `group`, or with a new group holding only `binding` appended.
pub open spec fn binding_added(
    before: Seq<ShaderBindGroup>,
    after: Seq<ShaderBindGroup>,
    group: u32,
    binding: ShaderBinding,
) -> bool {
    let j = find_group(before, group);
    if j >= 0 {
        &&& after.len() == before.len()
        &&& forall|k: int| 0 <= k < before.len() && k != j ==> after[k] == before[k]
        &&& after[j].spec_group() == group
        &&& after[j].spec_bindings() == before[j].spec_bindings().push(binding)
    } else {
        &&& after.len() == before.len() + 1
        &&& forall|k: int| 0 <= k < before.len() ==> after[k] == before[k]
        &&& after.last().spec_group() == group
        &&& after.last().spec_bindings() == seq![binding]
    }
}

/// What a shader reads and writes: its entry point, its inputs and outputs,
/// its binding slots grouped by bind group, and an instance count.
#[derive(PartialEq, Eq, Debug)]
pub struct ShaderMeta {
    entry: String,
    inputs: Vec<ShaderInput>,
    outputs: Vec<ShaderOuput>,
    bindings: Vec<ShaderBindGroup>,
    instances: Option<u32>,
}

impl ShaderMeta {
    pub closed spec fn spec_entry(&self) -> Seq<char> {
        self.entry@
    }

    pub closed spec fn spec_inputs(&self) -> Seq<ShaderInput> {
        self.inputs@
    }

    pub closed spec fn spec_outputs(&self) -> Seq<ShaderOuput> {
        self.outputs@
    }

    pub closed spec fn spec_bindings(&self) -> Seq<ShaderBindGroup> {
        self.bindings@
    }

    pub closed spec fn spec_instances(&self) -> Option<u32> {
        self.instances
    }

    /// Metadata with an entry point and nothing else.
    pub fn new(entry: String) -> (r: ShaderMeta)
        ensures
            r.spec_entry() == entry@,
            r.spec_inputs().len() == 0,
            r.spec_outputs().len() == 0,
            r.spec_bindings().len() == 0,
            r.spec_instances() == None::<u32>,
    {
        ShaderMeta { entry, inputs: Vec::new(), outputs: Vec::new(), bindings: Vec::new(), instances: None }
    }

    /// Metadata with an entry point and a (positive) instance count.
    pub fn with_instances(entry: String, instances: u32) -> (r: ShaderMeta)
        requires
            instances > 0,
        ensures
            r.spec_entry() == entry@,
            r.spec_inputs().len() == 0,
            r.spec_outputs().len() == 0,
            r.spec_bindings().len() == 0,
            r.spec_instances() == Some(instances),
    {
        ShaderMeta {
            entry,
            inputs: Vec::new(),
            outputs: Vec::new(),
            bindings: Vec::new(),
            instances: Some(instances),
        }
    }

    pub fn entry(&self) -> (r: &str)
        ensures
            r@ == self.spec_entry(),
    {
        self.entry.as_str()
    }

    pub fn inputs(&self) -> (r: &[ShaderInput])
        ensures
            r@ == self.spec_inputs(),
    {
        self.inputs.as_slice()
    }

    pub fn outputs(&self) -> (r: &[ShaderOuput])
        ensures
            r@ == self.spec_outputs(),
    {
        self.outputs.as_slice()
    }

    pub fn bindings(&self) -> (r: &[ShaderBindGroup])
        ensures
            r@ == self.spec_bindings(),
    {
        self.bindings.as_slice()
    }

    pub fn instances(&self) -> (r: Option<u32>)
        ensures
            r == self.spec_instances(),
    {
        self.instances
    }

    pub fn add_input(&mut self, value: ShaderValue, attribute: ShaderAttribute)
        ensures
            final(self).spec_inputs() == old(self).spec_inputs().push(ShaderInput { value, attribute }),
            final(self).spec_outputs() == old(self).spec_outputs(),
            final(self).spec_bindings() == old(self).spec_bindings(),
            final(self).spec_entry() == old(self).spec_entry(),
            final(self).spec_instances() == old(self).spec_instances(),
    {
        self.inputs.push(ShaderInput { value, attribute });
    }

    pub fn add_output(&mut self, value: ShaderValue, attribute: ShaderAttribute)
        ensures
            final(self).spec_outputs() == old(self).spec_outputs().push(
                ShaderOuput(ShaderInput { value, attribute }),
            ),
            final(self).spec_inputs() == old(self).spec_inputs(),
            final(self).spec_bindings() == old(self).spec_bindings(),
            final(self).spec_entry() == old(self).spec_entry(),
            final(self).spec_instances() == old(self).spec_instances(),
    {
        self.outputs.push(ShaderOuput(ShaderInput { value, attribute }));
    }

    /// Adds a slot to the first group numbered `group`, or opens that group.
    pub fn add_binding(&mut self, group: u32, binding: u32, kind: ShaderBindingKind)
        ensures
            binding_added(
                old(self).spec_bindings(),
                final(self).spec_bindings(),
                group,
                ShaderBinding { binding, kind },
            ),
            final(self).spec_inputs() == old(self).spec_inputs(),
            final(self).spec_outputs() == old(self).spec_outputs(),
            final(self).spec_entry() == old(self).spec_entry(),
            final(self).spec_instances() == old(self).spec_instances(),
    {
        let ghost before = self.bindings@;
        proof {
            lemma_find_group(before, group);
        }
        let mut i: usize = 0;
        while i < self.bindings.len()
            invariant
                i <= self.bindings@.len(),
                self.bindings@ == before,
                forall|k: int| 0 <= k < i ==> #[trigger] before[k].spec_group() != group,
            ensures
                i <= self.bindings@.len(),
                self.bindings@ == before,
                forall|k: int| 0 <= k < i ==> #[trigger] before[k].spec_group() != group,
                i < self.bindings@.len() ==> before[i as int].spec_group() == group,
            decreases self.bindings@.len() - i,
        {
            if self.bindings[i].group == group {
                break;
            }
            i = i + 1;
        }
        assert(i < self.bindings@.len() ==> before[i as int].spec_group() == group);
        proof {
            if find_group(before, group) >= 0 && find_group(before, group) < i {
                assert(before[find_group(before, group)].spec_group() != group);
            }
        }
        let new_binding = ShaderBinding { binding, kind };
        if i < self.bindings.len() {
            assert(find_group(before, group) == i);
            let mut g = self.bindings.remove(i);
            g.bindings.push(new_binding);
            self.bindings.insert(i, g);
            assert forall|k: int| 0 <= k < before.len() && k != i implies self.bindings@[k] == before[k] by {}
        } else {
            let mut list: Vec<ShaderBinding> = Vec::new();
            list.push(new_binding);
            self.bindings.push(ShaderBindGroup { group, bindings: list });
        }
    }

    /// Sets the instance count (positive).
    pub fn set_instances(&mut self, instances: u32)
        requires
            instances > 0,
        ensures
            final(self).spec_instances() == Some(instances),
            final(self).spec_inputs() == old(self).spec_inputs(),
            final(self).spec_outputs() == old(self).spec_outputs(),
            final(self).spec_bindings() == old(self).spec_bindings(),
            final(self).spec_entry() == old(self).spec_entry(),
    {
        self.instances = Some(instances);
    }
}

/// The code of a shader module, without metadata.
#[derive(PartialEq, Eq, Debug)]
pub enum ShaderCode {
    Spirv(Vec<u32>),
    Glsl { shader: String, stage: ShaderStage },
    Wgsl(String),
}

/// A loaded shader: its code, and for SPIR-V and WGSL its metadata.
#[derive(PartialEq, Eq, Debug)]
#[allow(inconsistent_fields)]
pub enum ShaderSource {
    Spirv { data: Vec<u32>, meta: ShaderMeta },
    Glsl { data: String, stage: ShaderStage },
    Wgsl { data: String, meta: ShaderMeta },
}

/// Why a shader could not be loaded.
#[derive(PartialEq, Eq, Debug)]
pub enum ShaderLoadError {
    Io(String),
    InvalidExt(String),
    Parse(String),
}

/// What a shader file holds, by its extension.
#[derive(Clone, Copy, PartialEq, Eq, Structural, Debug)]
pub enum ShaderFileKind {
    Spirv,
    Wgsl,
    Glsl(ShaderStage),
}

/// The shader file kinds by extension: `spv`, `wgsl`, and GLSL `vert`, `frag`, `comp`.
pub open spec fn spec_file_kind(ext: Seq<char>) -> Option<ShaderFileKind> {
    if ext == "spv"@ {
        Some(ShaderFileKind::Spirv)
    } else if ext == "wgsl"@ {
        Some(ShaderFileKind::Wgsl)
    } else if ext == "vert"@ {
        Some(ShaderFileKind::Glsl(ShaderStage::Vertex))
    } else if ext == "frag"@ {
        Some(ShaderFileKind::Glsl(ShaderStage::Fragment))
    } else if ext == "comp"@ {
        Some(ShaderFileKind::Glsl(ShaderStage::Compute))
    } else {
        None
    }
}

/// Whether two strings hold the same characters.
pub fn str_equal(a: &str, b: &str) -> (r: bool)
    ensures
        r == (a@ == b@),
{
    let n = a.unicode_len();
    if n != b.unicode_len() {
        return false;
    }
    let mut i: usize = 0;
    while i < n
        invariant
            n == a@.len(),
            n == b@.len(),
            i <= n,
            forall|k: int| 0 <= k < i ==> a@[k] == b@[k],
        decreases n - i,
    {
        if a.get_char(i) != b.get_char(i) {
            return false;
        }
        i = i + 1;
    }
    assert(a@ =~= b@);
    true
}

impl ShaderSource {
    /// A SPIR-V source from the bytes of its file: each byte becomes one
    /// word, as the loader reads them.
    pub fn spirv_from_bytes(bytes: &[u8], meta: ShaderMeta) -> (r: ShaderSource)
        ensures
            r matches ShaderSource::Spirv { data, meta: m } && m == meta && data@.len() == bytes@.len()
                && forall|i: int| 0 <= i < bytes@.len() ==> #[trigger] data@[i] == bytes@[i] as u32,
    {
        let mut data: Vec<u32> = Vec::new();
        let mut i: usize = 0;
        while i < bytes.len()
            invariant
                i <= bytes@.len(),
                data@.len() == i,
                forall|k: int| 0 <= k < i ==> #[trigger] data@[k] == bytes@[k] as u32,
            decreases bytes@.len() - i,
        {
            data.push(bytes[i] as u32);
            i = i + 1;
        }
        ShaderSource::Spirv { data, meta }
    }

    /// The file extensions a shader is loaded from.
    pub fn extensions() -> (r: Vec<&'static str>)
        ensures
            r@.len() == 5,
            r@[0]@ == "spv"@,
            r@[1]@ == "wgsl"@,
            r@[2]@ == "vert"@,
            r@[3]@ == "frag"@,
            r@[4]@ == "comp"@,
            forall|i: int| 0 <= i < 5 ==> spec_file_kind(#[trigger] r@[i]@) is Some,
    {
        let mut v = Vec::new();
        v.push("spv");
        v.push("wgsl");
        v.push("vert");
        v.push("frag");
        v.push("comp");
        v
    }

    /// What a file with this extension holds; `None` for an extension that is no shader's.
    pub fn file_kind(ext: &str) -> (r: Option<ShaderFileKind>)
        ensures
            r == spec_file_kind(ext@),
    {
        if str_equal(ext, "spv") {
            Some(ShaderFileKind::Spirv)
        } else if str_equal(ext, "wgsl") {
            Some(ShaderFileKind::Wgsl)
        } else if str_equal(ext, "vert") {
            Some(ShaderFileKind::Glsl(ShaderStage::Vertex))
        } else if str_equal(ext, "frag") {
            Some(ShaderFileKind::Glsl(ShaderStage::Fragment))
        } else if str_equal(ext, "comp") {
            Some(ShaderFileKind::Glsl(ShaderStage::Compute))
        } else {
            None
        }
    }
}

/// A shader module created on the device, with the metadata of its source.
pub struct Shader {
    module: u64,
    meta: Option<ShaderMeta>,
}

impl Shader {
    pub closed spec fn spec_module(&self) -> u64 {
        self.module
    }

    pub closed spec fn spec_meta(&self) -> Option<ShaderMeta> {
        self.meta
    }

    /// Creates the module on the device; SPIR-V and WGSL sources keep their metadata.
    pub fn create(device: &mut RenderDevice, source: ShaderSource) -> (r: Shader)
        requires
            old(device)@.next_id < u64::MAX,
        ensures
            r.spec_module() == old(device)@.next_id,
            final(device)@.next_id == old(device)@.next_id + 1,
            final(device)@.limits == old(device)@.limits,
            final(device)@.commands.drop_last() == old(device)@.commands,
            final(device)@.commands.len() == old(device)@.commands.len() + 1,
            match source {
                ShaderSource::Spirv { data, meta } => r.spec_meta() == Some(meta)
                    && final(device)@.commands.last() == DeviceCommand::CreateShaderModule {
                    id: r.spec_module(),
                    source: ShaderCode::Spirv(data),
                },
                ShaderSource::Glsl { data, stage } => r.spec_meta() == None::<ShaderMeta>
                    && final(device)@.commands.last() == DeviceCommand::CreateShaderModule {
                    id: r.spec_module(),
                    source: ShaderCode::Glsl { shader: data, stage },
                },
                ShaderSource::Wgsl { data, meta } => r.spec_meta() == Some(meta)
                    && final(device)@.commands.last() == DeviceCommand::CreateShaderModule {
                    id: r.spec_module(),
                    source: ShaderCode::Wgsl(data),
                },
            },
    {
        let id = device.allocate_id();
        let (code, meta) = match source {
            ShaderSource::Spirv { data, meta } => (ShaderCode::Spirv(data), Some(meta)),
            ShaderSource::Glsl { data, stage } => (ShaderCode::Glsl { shader: data, stage }, None),
            ShaderSource::Wgsl { data, meta } => (ShaderCode::Wgsl(data), Some(meta)),
        };
        device.submit(DeviceCommand::CreateShaderModule { id, source: code });
        Shader { module: id, meta }
    }

    /// The id of the module on the device.
    pub fn module(&self) -> (r: u64)
        ensures
            r == self.spec_module(),
    {
        self.module
    }

    pub fn meta(&self) -> (r: Option<&ShaderMeta>)
        ensures
            match self.spec_meta() {
                Some(m) => r == Some(&m),
                None => r.is_none(),
            },
    {
        match &self.meta {
            Some(m) => Some(m),
            None => None,
        }
    }
}

/// Sizes follow from 4-byte components: a scalar number takes 4 bytes, an
/// N-vector N of them, an N-by-N matrix N such vectors (a 4x4 matrix 64
/// bytes), a colour a 4-vector; a fixed array its length times its element.
pub proof fn lemma_value_sizes(inner: ValueShape, count: u32)
    ensures
        shape_size(ValueShape::Float) == 4,
        shape_size(ValueShape::UInt) == shape_size(ValueShape::Float),
        shape_size(ValueShape::SInt) == shape_size(ValueShape::Float),
        shape_size(ValueShape::Vec2) == 2 * shape_size(ValueShape::Float),
        shape_size(ValueShape::Vec3) == 3 * shape_size(ValueShape::Float),
        shape_size(ValueShape::Vec4) == 4 * shape_size(ValueShape::Float),
        shape_size(ValueShape::Color) == shape_size(ValueShape::Vec4),
        shape_size(ValueShape::Mat2) == 2 * shape_size(ValueShape::Vec2),
        shape_size(ValueShape::Mat3) == 3 * shape_size(ValueShape::Vec3),
        shape_size(ValueShape::Mat4) == 4 * shape_size(ValueShape::Vec4),
        shape_size(ValueShape::Array(Box::new(inner), Some(count))) == count * shape_size(inner),
        shape_size(shape_of(ShaderValue::Mat4)) == 4 * shape_size(shape_of(ShaderValue::Vec4)),
        shape_size(shape_of(ShaderValue::Mat3)) == 3 * shape_size(shape_of(ShaderValue::Vec3)),
        shape_size(shape_of(ShaderValue::Mat2)) == 2 * shape_size(shape_of(ShaderValue::Vec2)),
{
    assert(shape_size(ValueShape::Array(Box::new(inner), Some(count))) == shape_size(inner) * count);
    assert(shape_size(inner) * count == count * shape_size(inner)) by (nonlinear_arith);
}

} // verus!
