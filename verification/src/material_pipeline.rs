use crate::binding::{BindGroup, BindGroupLayout};
use crate::device::{DeviceCommand, RenderDevice};
use crate::material::{is_interleaved_layout, spec_blend_state, BlendMode, DepthWrite, VertexAttribute};
use crate::mesh::{VertexBufferLayout, VertexStepMode};
use crate::pipeline::{
    layout_ids, shader_instances, spec_default_stencil, ColorTargetState, DepthBiasState, DepthStencilState, FragmentState, MultisampleState, PrimitiveState,
    RenderPipeline, RenderPipelineDesc, StencilState, VertexState, COLOR_WRITES_ALL,
};
use crate::shader::Shader;
use crate::texture::{CompareFunction, TextureFormat};
use vstd::prelude::*;

verus! {

/// How a material is lit.
#[derive(Clone, Copy, PartialEq, Eq, Structural, Debug)]
pub enum ShaderModel {
    Unlit,
    Lit,
}

/// The model without lighting; it binds nothing.
pub struct Unlit;

impl Unlit {
    /// The shader model of the unlit model.
    pub fn model() -> (r: ShaderModel)
        ensures
            r == ShaderModel::Unlit,
    {
        ShaderModel::Unlit
    }

    /// The unlit model has no bind group layout.
    pub fn bind_group_layout(&self) -> (r: Option<&BindGroupLayout>)
        ensures
            r.is_none(),
    {
        None
    }
}

/// The type of a material: the type ids of its mesh pipeline and of the
/// material itself.
#[derive(Clone, Copy, PartialEq, Eq, Structural, Debug, Hash)]
pub struct MaterialType {
    pub surface: u32,
    pub material: u32,
}

/// A material on the GPU: its bind group, its model, its blend mode and its type.
pub struct MaterialInstance {
    pub binding: BindGroup<()>,
    pub model: ShaderModel,
    pub mode: BlendMode,
    pub ty: MaterialType,
}

/// The abstract state of a material pipeline: the id of its bind group
/// layout, the id and instance count of its render pipeline once created,
/// and the assets that depend on it.
pub struct MaterialPipelineView {
    pub layout: u64,
    pub pipeline: Option<(u64, Option<u32>)>,
    pub dependencies: Set<u128>,
}

/// The position of `id` in `ids`.
fn find_asset(ids: &Vec<u128>, id: u128) -> (r: Option<usize>)
    ensures
        match r {
            Some(i) => i < ids@.len() && ids@[i as int] == id,
            None => !ids@.contains(id),
        },
{
    let mut i: usize = 0;
    while i < ids.len()
        invariant
            0 <= i <= ids@.len(),
            forall|j: int| 0 <= j < i ==> ids@[j] != id,
        decreases ids.len() - i,
    {
        if ids[i] == id {
            return Some(i);
        }
        i = i + 1;
    }
    None
}

/// The pipeline of one material type: its bind group layout, its render
/// pipeline once created, and the assets that use it.
pub struct MaterialPipeline {
    layout: BindGroupLayout,
    pipeline: Option<RenderPipeline>,
    dependencies: Vec<u128>,
}

impl View for MaterialPipeline {
    type V = MaterialPipelineView;

    closed spec fn view(&self) -> MaterialPipelineView {
        MaterialPipelineView {
            layout: self.layout@.id,
            pipeline: match self.pipeline {
                Some(p) => Some((p.spec_id(), p.spec_instances())),
                None => None,
            },
            dependencies: self.dependencies@.to_set(),
        }
    }
}

impl MaterialPipeline {
    #[verifier::type_invariant]
    spec fn inv(&self) -> bool {
        self.dependencies@.no_duplicates()
    }

    /// A pipeline over the material layout `layout`, with no render
    /// pipeline yet and no dependency.
    pub fn create(layout: BindGroupLayout) -> (r: MaterialPipeline)
        ensures
            r@.layout == layout@.id,
            r@.pipeline.is_none(),
            r@.dependencies == Set::<u128>::empty(),
    {
        let r = MaterialPipeline { layout, pipeline: None, dependencies: Vec::new() };
        assert(r.dependencies@.to_set() =~= Set::<u128>::empty());
        r
    }

    /// The same pipeline, with `id` among its dependencies.
    pub fn with_dependency(self, id: u128) -> (r: MaterialPipeline)
        ensures
            r@.layout == self@.layout,
            r@.pipeline == self@.pipeline,
            r@.dependencies == self@.dependencies.insert(id),
    {
        let mut s = self;
        s.add_dependency(id);
        s
    }

    fn add_dependency(&mut self, id: u128)
        ensures
            final(self)@.layout == old(self)@.layout,
            final(self)@.pipeline == old(self)@.pipeline,
            final(self)@.dependencies == old(self)@.dependencies.insert(id),
    {
        proof {
            use_type_invariant(&*self);
        }
        if find_asset(&self.dependencies, id).is_none() {
            let mut taken = MaterialPipeline {
                layout: BindGroupLayout::new(0, Vec::new()),
                pipeline: None,
                dependencies: Vec::new(),
            };
            std::mem::swap(&mut taken, self);
            let MaterialPipeline { layout, pipeline, mut dependencies } = taken;
            let ghost old_deps = dependencies@;
            dependencies.push(id);
            proof {
                assert(dependencies@.no_duplicates()) by {
                    assert forall|a: int, b: int| 0 <= a < b < dependencies@.len() implies dependencies@[a]
                        != dependencies@[b] by {
                        if b == old_deps.len() {
                            assert(old_deps.contains(dependencies@[a]) ==> dependencies@[a] != id);
                            assert(dependencies@[a] == old_deps[a]);
                        }
                    }
                }
                assert forall|x: u128| dependencies@.contains(x) <==> (old_deps.contains(x) || x == id) by {
                    if dependencies@.contains(x) {
                        let w = choose|w: int| 0 <= w < dependencies@.len() && dependencies@[w] == x;
                        if w < old_deps.len() {
                            assert(old_deps[w] == x);
                        }
                    }
                    if old_deps.contains(x) {
                        let w = choose|w: int| 0 <= w < old_deps.len() && old_deps[w] == x;
                        assert(dependencies@[w] == x);
                    }
                    if x == id {
                        assert(dependencies@[old_deps.len() as int] == x);
                    }
                }
                assert(dependencies@.to_set() =~= old_deps.to_set().insert(id));
            }
            *self = MaterialPipeline { layout, pipeline, dependencies };
        } else {
            proof {
                assert(self.dependencies@.to_set() =~= self.dependencies@.to_set().insert(id));
            }
        }
    }

    /// Drops `id` from the dependencies.
    fn remove_dependency(&mut self, id: u128)
        ensures
            final(self)@.layout == old(self)@.layout,
            final(self)@.pipeline == old(self)@.pipeline,
            final(self)@.dependencies == old(self)@.dependencies.remove(id),
    {
        proof {
            use_type_invariant(&*self);
        }
        match find_asset(&self.dependencies, id) {
            Some(i) => {
                let mut taken = MaterialPipeline {
                    layout: BindGroupLayout::new(0, Vec::new()),
                    pipeline: None,
                    dependencies: Vec::new(),
                };
                std::mem::swap(&mut taken, self);
                let MaterialPipeline { layout, pipeline, mut dependencies } = taken;
                let ghost old_deps = dependencies@;
                dependencies.remove(i);
                proof {
                    assert(dependencies@ =~= old_deps.subrange(0, i as int) + old_deps.subrange(
                        i + 1,
                        old_deps.len() as int,
                    ));
                    assert(dependencies@.no_duplicates()) by {
                        assert forall|a: int, b: int| 0 <= a < b < dependencies@.len() implies dependencies@[a]
                            != dependencies@[b] by {
                            let xa = if a < i { a } else { a + 1 };
                            let xb = if b < i { b } else { b + 1 };
                            assert(dependencies@[a] == old_deps[xa] && dependencies@[b] == old_deps[xb]);
                        }
                    }
                    assert forall|x: u128| dependencies@.contains(x) <==> (old_deps.contains(x) && x != id) by {
                        if dependencies@.contains(x) {
                            let w = choose|w: int| 0 <= w < dependencies@.len() && dependencies@[w] == x;
                            let xw = if w < i { w } else { w + 1 };
                            assert(old_deps[xw] == x);
                            assert(xw != i);
                        }
                        if old_deps.contains(x) && x != id {
                            let w = choose|w: int| 0 <= w < old_deps.len() && old_deps[w] == x;
                            assert(w != i);
                            if w < i {
                                assert(dependencies@[w] == x);
                            } else {
                                assert(dependencies@[w - 1] == x);
                            }
                        }
                    }
                    assert(dependencies@.to_set() =~= old_deps.to_set().remove(id));
                }
                *self = MaterialPipeline { layout, pipeline, dependencies };
            },
            None => {
                proof {
                    assert(self.dependencies@.to_set() =~= self.dependencies@.to_set().remove(id));
                }
            },
        }
    }

    /// Whether no asset depends on the pipeline.
    fn has_no_dependency(&self) -> (r: bool)
        ensures
            r == (self@.dependencies == Set::<u128>::empty()),
    {
        let r = self.dependencies.len() == 0;
        proof {
            if r {
                assert(self.dependencies@.to_set() =~= Set::<u128>::empty());
            } else {
                assert(self.dependencies@.to_set().contains(self.dependencies@[0]));
            }
        }
        r
    }

    /// The material bind group layout.
    pub fn layout(&self) -> (r: &BindGroupLayout)
        ensures
            r@.id == self@.layout,
    {
        &self.layout
    }

    /// The render pipeline, once created.
    pub fn pipeline(&self) -> (r: Option<&RenderPipeline>)
        ensures
            match self@.pipeline {
                Some((id, instances)) => r matches Some(p) && p.spec_id() == id && p.spec_instances() == instances,
                None => r.is_none(),
            },
    {
        match &self.pipeline {
            Some(p) => Some(p),
            None => None,
        }
    }

    /// The assets that depend on the pipeline, each once.
    pub fn dependencies(&self) -> (r: &[u128])
        ensures
            r@.to_set() == self@.dependencies,
            r@.no_duplicates(),
    {
        proof {
            use_type_invariant(self);
        }
        self.dependencies.as_slice()
    }
}

/// What a material's render pipeline is built from: the surface formats,
/// the view, mesh and model layouts, the shaders, and what the material and
/// its mesh pipeline choose (label, vertex attributes, primitive state,
/// depth writing and blending).
pub struct MaterialPipelineDesc<'a> {
    pub format: TextureFormat,
    pub depth_format: Option<TextureFormat>,
    pub globals: &'a BindGroupLayout,
    pub mesh: &'a BindGroupLayout,
    pub model: Option<&'a BindGroupLayout>,
    pub vertex_shader: &'a Shader,
    pub fragment_shader: &'a Shader,
    pub label: Option<&'a str>,
    pub attributes: Vec<VertexAttribute>,
    pub primitive: PrimitiveState,
    pub depth_write: DepthWrite,
    pub mode: BlendMode,
}

/// The entry point of a shader: that of its metadata, else "main".
pub open spec fn entry_of(shader: &Shader) -> Seq<char> {
    match shader.spec_meta() {
        Some(m) => m.spec_entry(),
        None => "main"@,
    }
}

/// The depth test of a material pipeline: none when depth writing is off or
/// the surface has no depth format; else writing, less-than, with the
/// default stencil state and no bias. (`Auto` writes depth as `On` does.)
pub open spec fn material_depth_state(depth_write: DepthWrite, depth_format: Option<TextureFormat>) -> Option<
    DepthStencilState,
> {
    match depth_write {
        DepthWrite::Off => None,
        _ => match depth_format {
            Some(format) => Some(
                DepthStencilState {
                    format,
                    depth_write_enabled: true,
                    depth_compare: CompareFunction::Less,
                    stencil: spec_default_stencil(),
                    bias: DepthBiasState { constant: 0, slope_scale_bits: 0, clamp_bits: 0 },
                },
            ),
            None => None,
        },
    }
}

/// The bind group layouts of a material pipeline: view, mesh, material,
/// then the model's when it has one.
pub open spec fn material_layout_ids(desc: &MaterialPipelineDesc, material_layout: u64) -> Seq<u64> {
    let base = seq![desc.globals@.id, desc.mesh@.id, material_layout];
    match desc.model {
        Some(m) => base.push(m@.id),
        None => base,
    }
}

/// The entry point of a shader.
fn shader_entry(shader: &Shader) -> (r: &str)
    ensures
        r@ == entry_of(shader),
{
    match shader.meta() {
        Some(m) => m.entry(),
        None => "main",
    }
}

/// The abstract state of the material pipelines: the pipeline of each
/// material type, and the order the types were added in.
pub struct MaterialPipelinesView {
    pub pipelines: Map<MaterialType, MaterialPipelineView>,
    pub order: Seq<MaterialType>,
}

/// The pipelines of the material types, by type, in the order they were added.
pub struct MaterialPipelines {
    types: Vec<MaterialType>,
    pipelines: Vec<MaterialPipeline>,
}

impl View for MaterialPipelines {
    type V = MaterialPipelinesView;

    closed spec fn view(&self) -> MaterialPipelinesView {
        MaterialPipelinesView {
            pipelines: Map::new(
                |k: MaterialType| self.types@.contains(k),
                |k: MaterialType| self.pipelines@[self.types@.index_of(k)]@,
            ),
            order: self.types@,
        }
    }
}

/// In a sequence without repeats, an element is found at its one position.
proof fn lemma_type_position(types: Seq<MaterialType>, i: int)
    requires
        types.no_duplicates(),
        0 <= i < types.len(),
    ensures
        types.index_of(types[i]) == i,
{
    let j = types.index_of(types[i]);
    assert(types.contains(types[i]));
    assert(0 <= j < types.len() && types[j] == types[i]);
}

/// The position of `ty` in `types`.
fn find_type(types: &Vec<MaterialType>, ty: MaterialType) -> (r: Option<usize>)
    ensures
        match r {
            Some(i) => i < types@.len() && types@[i as int] == ty,
            None => !types@.contains(ty),
        },
{
    let mut i: usize = 0;
    while i < types.len()
        invariant
            0 <= i <= types@.len(),
            forall|j: int| 0 <= j < i ==> types@[j] != ty,
        decreases types.len() - i,
    {
        if types[i] == ty {
            return Some(i);
        }
        i = i + 1;
    }
    None
}

impl MaterialPipelines {
    #[verifier::type_invariant]
    spec fn inv(&self) -> bool {
        &&& self.types@.len() == self.pipelines@.len()
        &&& self.types@.no_duplicates()
    }

    pub fn new() -> (r: MaterialPipelines)
        ensures
            r@.pipelines == Map::<MaterialType, MaterialPipelineView>::empty(),
            r@.order == Seq::<MaterialType>::empty(),
    {
        let r = MaterialPipelines { types: Vec::new(), pipelines: Vec::new() };
        assert(r@.pipelines =~= Map::<MaterialType, MaterialPipelineView>::empty());
        r
    }

    pub fn get(&self, ty: MaterialType) -> (r: Option<&MaterialPipeline>)
        ensures
            match r {
                Some(p) => self@.pipelines.contains_key(ty) && p@ == self@.pipelines[ty],
                None => !self@.pipelines.contains_key(ty),
            },
    {
        proof {
            use_type_invariant(self);
        }
        match find_type(&self.types, ty) {
            Some(i) => {
                proof {
                    lemma_type_position(self.types@, i as int);
                }
                Some(&self.pipelines[i])
            },
            None => None,
        }
    }

    pub fn has(&self, ty: MaterialType) -> (r: bool)
        ensures
            r == self@.pipelines.contains_key(ty),
    {
        find_type(&self.types, ty).is_some()
    }

    /// Replaces the pipeline at position `i` by `p`.
    fn replace_at(&mut self, i: usize, p: MaterialPipeline)
        requires
            i < old(self)@.order.len(),
        ensures
            final(self)@.order == old(self)@.order,
            final(self)@.pipelines == old(self)@.pipelines.insert(old(self)@.order[i as int], p@),
    {
        proof {
            use_type_invariant(&*self);
        }
        let mut taken = MaterialPipelines { types: Vec::new(), pipelines: Vec::new() };
        std::mem::swap(&mut taken, self);
        let MaterialPipelines { types, mut pipelines } = taken;
        let ghost op = pipelines@;
        let _ = pipelines.remove(i);
        pipelines.insert(i, p);
        proof {
            let ty = types@[i as int];
            let m = Map::new(|k: MaterialType| types@.contains(k), |k: MaterialType| pipelines@[types@.index_of(k)]@);
            let om = Map::new(|k: MaterialType| types@.contains(k), |k: MaterialType| op[types@.index_of(k)]@);
            assert forall|k: MaterialType| #[trigger] m.contains_key(k) implies m[k] == om.insert(ty, p@)[k] by {
                let j = types@.index_of(k);
                assert(0 <= j < types@.len() && types@[j] == k);
                lemma_type_position(types@, j);
                lemma_type_position(types@, i as int);
                if j != i {
                    assert(pipelines@[j] == op[j]);
                }
            }
            assert(m =~= om.insert(ty, p@));
        }
        *self = MaterialPipelines { types, pipelines };
    }

    /// Appends the pipeline `p` for the new type `ty`.
    fn push_new(&mut self, ty: MaterialType, p: MaterialPipeline)
        requires
            !old(self)@.pipelines.contains_key(ty),
        ensures
            final(self)@.order == old(self)@.order.push(ty),
            final(self)@.pipelines == old(self)@.pipelines.insert(ty, p@),
    {
        proof {
            use_type_invariant(&*self);
        }
        let mut taken = MaterialPipelines { types: Vec::new(), pipelines: Vec::new() };
        std::mem::swap(&mut taken, self);
        let MaterialPipelines { mut types, mut pipelines } = taken;
        let ghost ot = types@;
        let ghost op = pipelines@;
        types.push(ty);
        pipelines.push(p);
        proof {
            assert(types@.no_duplicates()) by {
                assert forall|a: int, b: int| 0 <= a < b < types@.len() implies types@[a] != types@[b] by {
                    if b == ot.len() {
                        assert(types@[a] == ot[a]);
                        assert(ot.contains(ot[a]));
                    }
                }
            }
            let m = Map::new(|k: MaterialType| types@.contains(k), |k: MaterialType| pipelines@[types@.index_of(k)]@);
            let om = Map::new(|k: MaterialType| ot.contains(k), |k: MaterialType| op[ot.index_of(k)]@);
            assert forall|k: MaterialType| #[trigger] m.contains_key(k) implies om.insert(ty, p@).contains_key(k)
                && m[k] == om.insert(ty, p@)[k] by {
                let j = types@.index_of(k);
                assert(0 <= j < types@.len() && types@[j] == k);
                lemma_type_position(types@, j);
                if k != ty {
                    assert(j < ot.len());
                    assert(ot[j] == k);
                    lemma_type_position(ot, j);
                }
            }
            assert forall|k: MaterialType| om.insert(ty, p@).contains_key(k) implies #[trigger] m.contains_key(k) by {
                if k == ty {
                    assert(types@[ot.len() as int] == k);
                } else {
                    let j = ot.index_of(k);
                    assert(types@[j] == k);
                }
            }
            assert(m =~= om.insert(ty, p@));
        }
        *self = MaterialPipelines { types, pipelines };
    }

    /// Takes out the pipeline at position `i`.
    fn take_at(&mut self, i: usize) -> (r: MaterialPipeline)
        requires
            i < old(self)@.order.len(),
        ensures
            r@ == old(self)@.pipelines[old(self)@.order[i as int]],
            final(self)@.order == old(self)@.order.remove(i as int),
            final(self)@.pipelines == old(self)@.pipelines.remove(old(self)@.order[i as int]),
    {
        proof {
            use_type_invariant(&*self);
            lemma_type_position(self.types@, i as int);
        }
        let mut taken = MaterialPipelines { types: Vec::new(), pipelines: Vec::new() };
        std::mem::swap(&mut taken, self);
        let MaterialPipelines { mut types, mut pipelines } = taken;
        let ghost ot = types@;
        let ghost op = pipelines@;
        let ty = types.remove(i);
        let p = pipelines.remove(i);
        proof {
            assert(types@.no_duplicates()) by {
                assert forall|a: int, b: int| 0 <= a < b < types@.len() implies types@[a] != types@[b] by {
                    let xa = if a < i { a } else { a + 1 };
                    let xb = if b < i { b } else { b + 1 };
                    assert(types@[a] == ot[xa] && types@[b] == ot[xb]);
                }
            }
            let m = Map::new(|k: MaterialType| types@.contains(k), |k: MaterialType| pipelines@[types@.index_of(k)]@);
            let om = Map::new(|k: MaterialType| ot.contains(k), |k: MaterialType| op[ot.index_of(k)]@);
            assert forall|k: MaterialType| #[trigger] m.contains_key(k) implies om.remove(ty).contains_key(k) && m[k]
                == om.remove(ty)[k] by {
                let j = types@.index_of(k);
                assert(0 <= j < types@.len() && types@[j] == k);
                lemma_type_position(types@, j);
                let xj = if j < i { j } else { j + 1 };
                assert(ot[xj] == k);
                lemma_type_position(ot, xj);
            }
            assert forall|k: MaterialType| om.remove(ty).contains_key(k) implies #[trigger] m.contains_key(k) by {
                let j = ot.index_of(k);
                assert(0 <= j < ot.len() && ot[j] == k);
                if j < i {
                    assert(types@[j] == k);
                } else {
                    assert(j != i);
                    assert(types@[j - 1] == k);
                }
            }
            assert(m =~= om.remove(ty));
        }
        *self = MaterialPipelines { types, pipelines };
        p
    }

    /// Records that the asset `id` uses the material type `ty`, adding a
    /// pipeline over `layout` when the type has none; the id of the type's
    /// material layout comes back. `layout` is needed (and used) only for a
    /// new type.
    pub fn create_layout(&mut self, ty: MaterialType, id: u128, layout: Option<BindGroupLayout>) -> (r: u64)
        requires
            old(self)@.pipelines.contains_key(ty) || layout.is_some(),
        ensures
            old(self)@.pipelines.contains_key(ty) ==> {
                &&& final(self)@.order == old(self)@.order
                &&& final(self)@.pipelines == old(self)@.pipelines.insert(
                    ty,
                    MaterialPipelineView {
                        dependencies: old(self)@.pipelines[ty].dependencies.insert(id),
                        ..old(self)@.pipelines[ty]
                    },
                )
                &&& r == old(self)@.pipelines[ty].layout
            },
            !old(self)@.pipelines.contains_key(ty) ==> {
                &&& final(self)@.order == old(self)@.order.push(ty)
                &&& r == layout.unwrap()@.id
                &&& final(self)@.pipelines == old(self)@.pipelines.insert(
                    ty,
                    MaterialPipelineView { layout: r, pipeline: None, dependencies: set![id] },
                )
            },
    {
        proof {
            use_type_invariant(&*self);
        }
        match find_type(&self.types, ty) {
            Some(i) => {
                proof {
                    lemma_type_position(self.types@, i as int);
                }
                let mut p = self.take_at(i);
                p.add_dependency(id);
                let r = p.layout.id();
                self.insert_at(i, ty, p);
                r
            },
            None => {
                let p = MaterialPipeline::create(layout.unwrap()).with_dependency(id);
                proof {
                    assert(Set::<u128>::empty().insert(id) =~= set![id]);
                }
                let r = p.layout.id();
                self.push_new(ty, p);
                r
            },
        }
    }

    /// Records that the asset `id` uses the material type `ty`, if the type
    /// has a pipeline.
    pub fn add_dependency(&mut self, ty: MaterialType, id: u128)
        ensures
            final(self)@.order == old(self)@.order,
            old(self)@.pipelines.contains_key(ty) ==> final(self)@.pipelines == old(self)@.pipelines.insert(
                ty,
                MaterialPipelineView {
                    dependencies: old(self)@.pipelines[ty].dependencies.insert(id),
                    ..old(self)@.pipelines[ty]
                },
            ),
            !old(self)@.pipelines.contains_key(ty) ==> final(self)@.pipelines == old(self)@.pipelines,
    {
        proof {
            use_type_invariant(&*self);
        }
        match find_type(&self.types, ty) {
            Some(i) => {
                proof {
                    lemma_type_position(self.types@, i as int);
                }
                let mut p = self.take_at(i);
                p.add_dependency(id);
                self.insert_at(i, ty, p);
            },
            None => {},
        }
    }

    /// Records that the asset `id` no longer uses the material type `ty`;
    /// whether the type has a pipeline that no asset uses any more.
    pub fn remove_dependency(&mut self, ty: MaterialType, id: u128) -> (r: bool)
        ensures
            final(self)@.order == old(self)@.order,
            old(self)@.pipelines.contains_key(ty) ==> final(self)@.pipelines == old(self)@.pipelines.insert(
                ty,
                MaterialPipelineView {
                    dependencies: old(self)@.pipelines[ty].dependencies.remove(id),
                    ..old(self)@.pipelines[ty]
                },
            ),
            !old(self)@.pipelines.contains_key(ty) ==> final(self)@.pipelines == old(self)@.pipelines,
            r == (old(self)@.pipelines.contains_key(ty) && old(self)@.pipelines[ty].dependencies.remove(id)
                == Set::<u128>::empty()),
    {
        proof {
            use_type_invariant(&*self);
        }
        match find_type(&self.types, ty) {
            Some(i) => {
                proof {
                    lemma_type_position(self.types@, i as int);
                }
                let mut p = self.take_at(i);
                p.remove_dependency(id);
                let r = p.has_no_dependency();
                self.insert_at(i, ty, p);
                r
            },
            None => false,
        }
    }

    /// Takes out the pipeline of `ty`; the last pipeline takes its place.
    pub fn remove(&mut self, ty: MaterialType) -> (r: Option<MaterialPipeline>)
        ensures
            final(self)@.pipelines == old(self)@.pipelines.remove(ty),
            match r {
                Some(p) => old(self)@.pipelines.contains_key(ty) && p@ == old(self)@.pipelines[ty],
                None => !old(self)@.pipelines.contains_key(ty),
            },
            !old(self)@.pipelines.contains_key(ty) ==> final(self)@.order == old(self)@.order,
            old(self)@.pipelines.contains_key(ty) ==> {
                let i = old(self)@.order.index_of(ty);
                let o = old(self)@.order;
                final(self)@.order == (if i == o.len() - 1 {
                    o.drop_last()
                } else {
                    o.update(i, o.last()).drop_last()
                })
            },
    {
        proof {
            use_type_invariant(&*self);
        }
        match find_type(&self.types, ty) {
            Some(i) => {
                proof {
                    lemma_type_position(self.types@, i as int);
                }
                let n = self.types.len();
                if i + 1 == n {
                    let p = self.take_at(i);
                    proof {
                        assert(old(self)@.order.remove(i as int) =~= old(self)@.order.drop_last());
                    }
                    Some(p)
                } else {
                    let last_ty = self.types[n - 1];
                    proof {
                        lemma_type_position(self.types@, n - 1);
                    }
                    let last = self.take_at(n - 1);
                    let ghost mid = self@;
                    let p = self.take_at(i);
                    proof {
                        assert(mid.order == old(self)@.order.drop_last());
                        assert(mid.order[i as int] == ty);
                        lemma_type_position(mid.order, i as int);
                        assert(!self@.pipelines.contains_key(last_ty)) by {
                            assert(old(self)@.order.no_duplicates());
                        }
                    }
                    self.insert_at(i, last_ty, last);
                    proof {
                        let o = old(self)@.order;
                        assert(o.drop_last().remove(i as int).insert(i as int, last_ty) =~= o.update(
                            i as int,
                            o.last(),
                        ).drop_last());
                        assert(self@.pipelines =~= old(self)@.pipelines.remove(ty));
                    }
                    Some(p)
                }
            },
            None => {
                proof {
                    assert(old(self)@.pipelines.remove(ty) =~= old(self)@.pipelines);
                }
                None
            },
        }
    }

    /// Creates the render pipeline of the material type `ty`, adding a
    /// pipeline over `layout` when the type has none (`layout` is otherwise
    /// dropped). The pipeline layout is the view, mesh and material layouts,
    /// then the model's; the vertex stage reads the material's attributes
    /// interleaved in one buffer; the fragment stage writes one target of the
    /// surface format, blended by the material's mode; depth is tested as
    /// `material_depth_state` says; one sample.
    pub fn create_pipeline(
        &mut self,
        device: &mut RenderDevice,
        ty: MaterialType,
        layout: BindGroupLayout,
        desc: MaterialPipelineDesc,
    )
        requires
            old(device)@.next_id + 2 <= u64::MAX,
            desc.attributes@.len() <= u32::MAX,
        ensures
            ({
                let known = old(self)@.pipelines.contains_key(ty);
                let material_layout = if known {
                    old(self)@.pipelines[ty].layout
                } else {
                    layout@.id
                };
                let deps = if known {
                    old(self)@.pipelines[ty].dependencies
                } else {
                    Set::<u128>::empty()
                };
                let n0 = old(device)@.next_id;
                let c0 = old(device)@.commands;
                let c = final(device)@.commands;
                &&& final(self)@.order == (if known {
                    old(self)@.order
                } else {
                    old(self)@.order.push(ty)
                })
                &&& final(self)@.pipelines == old(self)@.pipelines.insert(
                    ty,
                    MaterialPipelineView {
                        layout: material_layout,
                        pipeline: Some(((n0 + 1) as u64, shader_instances(desc.vertex_shader))),
                        dependencies: deps,
                    },
                )
                &&& final(device)@.next_id == n0 + 2
                &&& final(device)@.limits == old(device)@.limits
                &&& c.len() == c0.len() + 2
                &&& c.subrange(0, c0.len() as int) == c0
                &&& c[c0.len() as int] matches DeviceCommand::CreatePipelineLayout { id, bind_group_layouts }
                &&& id == n0 && bind_group_layouts@ == material_layout_ids(&desc, material_layout)
                &&& c.last() matches DeviceCommand::CreateRenderPipeline {
                    id: pid,
                    label,
                    layout: l,
                    vertex_module,
                    vertex_entry,
                    buffers,
                    fragment,
                    primitive,
                    depth_stencil,
                    multisample,
                }
                &&& pid == n0 + 1 && l == Some(n0)
                &&& (match desc.label {
                    Some(s) => label matches Some(t) && t@ == s@,
                    None => label.is_none(),
                })
                &&& vertex_module == desc.vertex_shader.spec_module()
                &&& vertex_entry@ == entry_of(desc.vertex_shader)
                &&& buffers@.len() == 1
                &&& is_interleaved_layout(buffers@[0], desc.attributes@, VertexStepMode::Vertex)
                &&& fragment matches Some(fc)
                &&& fc.module == desc.fragment_shader.spec_module()
                &&& fc.entry@ == entry_of(desc.fragment_shader)
                &&& fc.targets@ == seq![
                    Some(
                        ColorTargetState {
                            format: desc.format,
                            blend: Some(spec_blend_state(desc.mode)),
                            write_mask: COLOR_WRITES_ALL,
                        },
                    ),
                ]
                &&& primitive == desc.primitive
                &&& depth_stencil == material_depth_state(desc.depth_write, desc.depth_format)
                &&& multisample == (MultisampleState { count: 1, mask: u64::MAX, alpha_to_coverage_enabled: false })
            }),
    {
        proof {
            use_type_invariant(&*self);
        }
        let pos = find_type(&self.types, ty);
        let known = pos.is_some();
        let i: usize = match pos {
            Some(i) => i,
            None => 0,
        };
        proof {
            if known {
                lemma_type_position(self.types@, i as int);
            }
        }
        let ghost before = self@;
        let mut p = if known {
            self.take_at(i)
        } else {
            MaterialPipeline::create(layout)
        };
        let MaterialPipelineDesc {
            format,
            depth_format,
            globals,
            mesh,
            model,
            vertex_shader,
            fragment_shader,
            label,
            attributes,
            primitive,
            depth_write,
            mode,
        } = desc;
        let ghost material_layout = p@.layout;
        let mut layouts: Vec<&BindGroupLayout> = Vec::new();
        layouts.push(globals);
        layouts.push(mesh);
        layouts.push(&p.layout);
        match model {
            Some(m) => layouts.push(m),
            None => {},
        }
        let mut buffers: Vec<VertexBufferLayout> = Vec::new();
        buffers.push(VertexAttribute::into_layout(attributes.as_slice(), VertexStepMode::Vertex));
        let mut targets: Vec<Option<ColorTargetState>> = Vec::new();
        targets.push(Some(ColorTargetState { format, blend: Some(mode.blend_state()), write_mask: COLOR_WRITES_ALL }));
        let depth_state = match depth_write {
            DepthWrite::Off => None,
            _ => match depth_format {
                Some(format) => Some(
                    DepthStencilState {
                        format,
                        depth_write_enabled: true,
                        depth_compare: CompareFunction::Less,
                        stencil: StencilState::default(),
                        bias: DepthBiasState::default(),
                    },
                ),
                None => None,
            },
        };
        proof {
            assert(layout_ids(layouts@) =~= material_layout_ids(&desc, material_layout));
        }
        let pipeline = RenderPipeline::create(
            device,
            RenderPipelineDesc {
                label,
                layout: Some(layouts.as_slice()),
                vertex: VertexState { shader: vertex_shader, entry: shader_entry(vertex_shader), buffers },
                fragment: Some(
                    FragmentState { shader: fragment_shader, entry: shader_entry(fragment_shader), targets },
                ),
                primitive,
                depth_state,
                multisample: MultisampleState::default(),
            },
        );
        proof {
            use_type_invariant(&p);
        }
        p.pipeline = Some(pipeline);
        if known {
            self.insert_at(i, ty, p);
            proof {
                assert(self@.order =~= before.order);
            }
        } else {
            self.push_new(ty, p);
        }
    }

    /// Puts the pipeline `p` of the type `ty`, which is not held, back at position `i`.
    fn insert_at(&mut self, i: usize, ty: MaterialType, p: MaterialPipeline)
        requires
            i <= old(self)@.order.len(),
            !old(self)@.pipelines.contains_key(ty),
        ensures
            final(self)@.order == old(self)@.order.insert(i as int, ty),
            final(self)@.pipelines == old(self)@.pipelines.insert(ty, p@),
    {
        proof {
            use_type_invariant(&*self);
        }
        let mut taken = MaterialPipelines { types: Vec::new(), pipelines: Vec::new() };
        std::mem::swap(&mut taken, self);
        let MaterialPipelines { mut types, mut pipelines } = taken;
        let ghost ot = types@;
        let ghost op = pipelines@;
        types.insert(i, ty);
        pipelines.insert(i, p);
        proof {
            assert(types@.no_duplicates()) by {
                assert forall|a: int, b: int| 0 <= a < b < types@.len() implies types@[a] != types@[b] by {
                    if a == i {
                        let xb = b - 1;
                        assert(types@[b] == ot[xb]);
                        assert(ot.contains(ot[xb]));
                    } else if b == i {
                        assert(types@[a] == ot[a]);
                        assert(ot.contains(ot[a]));
                    } else {
                        let xa = if a < i { a } else { a - 1 };
                        let xb = if b < i { b } else { b - 1 };
                        assert(types@[a] == ot[xa] && types@[b] == ot[xb]);
                    }
                }
            }
            let m = Map::new(|k: MaterialType| types@.contains(k), |k: MaterialType| pipelines@[types@.index_of(k)]@);
            let om = Map::new(|k: MaterialType| ot.contains(k), |k: MaterialType| op[ot.index_of(k)]@);
            assert forall|k: MaterialType| #[trigger] m.contains_key(k) implies om.insert(ty, p@).contains_key(k)
                && m[k] == om.insert(ty, p@)[k] by {
                let j = types@.index_of(k);
                assert(0 <= j < types@.len() && types@[j] == k);
                lemma_type_position(types@, j);
                if k != ty {
                    assert(j != i);
                    let xj = if j < i { j } else { j - 1 };
                    assert(ot[xj] == k);
                    lemma_type_position(ot, xj);
                }
            }
            assert forall|k: MaterialType| om.insert(ty, p@).contains_key(k) implies #[trigger] m.contains_key(k) by {
                if k == ty {
                    assert(types@[i as int] == k);
                } else {
                    let j = ot.index_of(k);
                    assert(0 <= j < ot.len() && ot[j] == k);
                    if j < i {
                        assert(types@[j] == k);
                    } else {
                        assert(types@[j + 1] == k);
                    }
                }
            }
            assert(m =~= om.insert(ty, p@));
        }
        *self = MaterialPipelines { types, pipelines };
    }
}

} // verus!
