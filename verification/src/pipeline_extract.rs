use crate::flags::ShaderStages;
use crate::graph_resources::IdMap;
use crate::render_asset::RenderAssets;
use crate::shader::str_equal;
use vstd::prelude::*;

verus! {

/// Where an asset is loaded from: an asset id, or a path.
pub enum LoadPath {
    Id(u128),
    Path(String),
}

/// A load path as a value.
pub enum PathView {
    Id(u128),
    Path(Seq<char>),
}

impl View for LoadPath {
    type V = PathView;

    open spec fn view(&self) -> PathView {
        match self {
            LoadPath::Id(id) => PathView::Id(*id),
            LoadPath::Path(p) => PathView::Path(p@),
        }
    }
}

impl LoadPath {
    /// Whether two load paths name the same asset the same way.
    pub fn same(&self, other: &LoadPath) -> (r: bool)
        ensures
            r == (self@ == other@),
    {
        match (self, other) {
            (LoadPath::Id(a), LoadPath::Id(b)) => *a == *b,
            (LoadPath::Path(a), LoadPath::Path(b)) => str_equal(a.as_str(), b.as_str()),
            _ => false,
        }
    }

    /// A copy of the path.
    pub fn copy(&self) -> (r: LoadPath)
        ensures
            r@ == self@,
    {
        match self {
            LoadPath::Id(id) => LoadPath::Id(*id),
            LoadPath::Path(p) => LoadPath::Path(p.clone()),
        }
    }
}

/// The shaders a pipeline is built from.
pub enum PipelineShaders {
    Render { vertex: LoadPath, fragment: LoadPath },
    Compute { shader: LoadPath },
}

impl From<(LoadPath, LoadPath)> for PipelineShaders {
    /// A render pipeline's shaders from a (vertex, fragment) pair.
    fn from(pair: (LoadPath, LoadPath)) -> (r: PipelineShaders) {
        let (vertex, fragment) = pair;
        PipelineShaders::Render { vertex, fragment }
    }
}

impl vstd::std_specs::convert::FromSpecImpl<(LoadPath, LoadPath)> for PipelineShaders {
    open spec fn obeys_from_spec() -> bool {
        true
    }

    open spec fn from_spec(pair: (LoadPath, LoadPath)) -> PipelineShaders {
        PipelineShaders::Render { vertex: pair.0, fragment: pair.1 }
    }
}

impl PipelineShaders {
    /// A render pipeline's vertex and fragment shaders.
    pub fn render(vertex: LoadPath, fragment: LoadPath) -> (r: PipelineShaders)
        ensures
            r matches PipelineShaders::Render { vertex: v, fragment: f } && v@ == vertex@ && f@ == fragment@,
    {
        PipelineShaders::Render { vertex, fragment }
    }

    /// A compute pipeline's shader.
    pub fn compute(shader: LoadPath) -> (r: PipelineShaders)
        ensures
            r matches PipelineShaders::Compute { shader: s } && s@ == shader@,
    {
        PipelineShaders::Compute { shader }
    }
}

/// The id an asset path was loaded under: the first entry for the path.
pub open spec fn path_id(paths: Seq<(Seq<char>, u128)>, path: Seq<char>) -> Option<u128>
    decreases paths.len(),
{
    if paths.len() == 0 {
        None
    } else if paths[0].0 == path {
        Some(paths[0].1)
    } else {
        path_id(paths.drop_first(), path)
    }
}

/// The path entries as values.
pub open spec fn path_entries(paths: Seq<(String, u128)>) -> Seq<(Seq<char>, u128)> {
    paths.map_values(|e: (String, u128)| (e.0@, e.1))
}

/// Whether the shader at `path` is loaded: its id, or the id its path was
/// loaded under, names a loaded shader.
pub open spec fn shader_loaded<R>(path: PathView, paths: Seq<(Seq<char>, u128)>, loaded: Map<u128, R>) -> bool {
    match path {
        PathView::Id(id) => loaded.contains_key(id),
        PathView::Path(p) => match path_id(paths, p) {
            Some(id) => loaded.contains_key(id),
            None => false,
        },
    }
}

/// The id the asset at `path` was loaded under, among `paths`.
fn find_path_id(paths: &[(String, u128)], path: &String) -> (r: Option<u128>)
    ensures
        r == path_id(path_entries(paths@), path@),
{
    let ghost e = path_entries(paths@);
    assert(e.subrange(0, e.len() as int) =~= e);
    let mut i: usize = 0;
    while i < paths.len()
        invariant
            i <= paths@.len(),
            e == path_entries(paths@),
            path_id(e, path@) == path_id(e.subrange(i as int, e.len() as int), path@),
        decreases paths@.len() - i,
    {
        let ghost rest = e.subrange(i as int, e.len() as int);
        assert(rest.drop_first() =~= e.subrange(i + 1, e.len() as int));
        if str_equal(paths[i].0.as_str(), path.as_str()) {
            return Some(paths[i].1);
        }
        i = i + 1;
    }
    None
}

/// Whether the shader at `path` is among the loaded shaders.
fn is_loaded<R>(path: &LoadPath, paths: &[(String, u128)], loaded: &RenderAssets<R>) -> (r: bool)
    ensures
        r == shader_loaded(path@, path_entries(paths@), loaded@),
{
    match path {
        LoadPath::Id(id) => loaded.contains(*id),
        LoadPath::Path(p) => match find_path_id(paths, p) {
            Some(id) => loaded.contains(id),
            None => false,
        },
    }
}

impl PipelineShaders {
    /// Whether every shader the pipeline is built from is loaded, its path
    /// resolved through `paths` (asset path and the id it was loaded under).
    pub fn can_extract<R>(&self, paths: &[(String, u128)], loaded: &RenderAssets<R>) -> (r: bool)
        ensures
            r == match self {
                PipelineShaders::Render { vertex, fragment } => shader_loaded(
                    vertex@,
                    path_entries(paths@),
                    loaded@,
                ) && shader_loaded(fragment@, path_entries(paths@), loaded@),
                PipelineShaders::Compute { shader } => shader_loaded(shader@, path_entries(paths@), loaded@),
            },
    {
        match self {
            PipelineShaders::Render { vertex, fragment } => {
                let v = is_loaded(vertex, paths, loaded);
                let f = is_loaded(fragment, paths, loaded);
                v && f
            },
            PipelineShaders::Compute { shader } => is_loaded(shader, paths, loaded),
        }
    }
}

/// The kind of pipeline an extractor builds, with the shaders it needs.
pub enum PipelineExtractorKind {
    Render { vertex_shader: LoadPath, fragment_shader: LoadPath },
    Compute { shader: LoadPath },
}

/// What was last asked of a pipeline extractor.
#[derive(Clone, Copy, PartialEq, Eq, Structural, Debug)]
pub enum PipelineAction {
    Extract,
    Remove,
}

/// The stage bits of the shaders an extractor of this kind needs: vertex
/// and fragment for a render pipeline, compute for a compute pipeline.
pub open spec fn kind_stages(kind: &PipelineExtractorKind) -> u32 {
    match kind {
        PipelineExtractorKind::Render { .. } => 3,
        PipelineExtractorKind::Compute { .. } => 4,
    }
}

/// The loaded stages after the shader of `stage` loaded (or unloaded).
pub open spec fn loaded_after(bits: u32, stage: u32, loaded: bool) -> u32 {
    if loaded {
        bits | stage
    } else {
        bits & !stage
    }
}

/// Setting the same stages the same way twice is setting them once.
pub proof fn lemma_loaded_after_idempotent(bits: u32, stage: u32, loaded: bool)
    ensures
        loaded_after(loaded_after(bits, stage, loaded), stage, loaded) == loaded_after(bits, stage, loaded),
{
    assert((bits | stage) | stage == bits | stage) by (bit_vector);
    assert((bits & !stage) & !stage == bits & !stage) by (bit_vector);
}

/// Where a pipeline extractor stands: the shader stages it needs, those
/// loaded, and what was last asked of it.
#[derive(Clone, Copy, PartialEq, Eq, Structural, Debug)]
pub struct PipelineExtractorState {
    shaders: ShaderStages,
    shaders_loaded: ShaderStages,
    action: Option<PipelineAction>,
}

impl PipelineExtractorState {
    pub closed spec fn spec_shaders(&self) -> u32 {
        self.shaders.bits
    }

    pub closed spec fn spec_loaded(&self) -> u32 {
        self.shaders_loaded.bits
    }

    pub closed spec fn spec_action(&self) -> Option<PipelineAction> {
        self.action
    }

    /// Whether every stage the extractor needs is loaded.
    pub open spec fn ready(&self) -> bool {
        self.spec_shaders() & !self.spec_loaded() == 0
    }

    /// The state with the loaded stages replaced.
    pub closed spec fn with_loaded(self, loaded: u32) -> PipelineExtractorState {
        PipelineExtractorState { shaders_loaded: ShaderStages { bits: loaded }, ..self }
    }

    /// The state with the action replaced.
    pub closed spec fn with_action(self, action: PipelineAction) -> PipelineExtractorState {
        PipelineExtractorState { action: Some(action), ..self }
    }

    /// What the two replacements change, and what they keep.
    pub proof fn lemma_replacements(self, loaded: u32, action: PipelineAction)
        ensures
            self.with_loaded(loaded).spec_loaded() == loaded,
            self.with_loaded(loaded).spec_shaders() == self.spec_shaders(),
            self.with_loaded(loaded).spec_action() == self.spec_action(),
            self.with_action(action).spec_action() == Some(action),
            self.with_action(action).spec_shaders() == self.spec_shaders(),
            self.with_action(action).spec_loaded() == self.spec_loaded(),
    {
    }

    /// A state that needs the shaders of `kind`, has none loaded and was asked nothing.
    pub fn new(kind: &PipelineExtractorKind) -> (r: PipelineExtractorState)
        ensures
            r.spec_shaders() == kind_stages(kind),
            r.spec_loaded() == 0,
            r.spec_action() == None::<PipelineAction>,
    {
        let shaders = match kind {
            PipelineExtractorKind::Render { .. } => ShaderStages::vertex().union(ShaderStages::fragment()),
            PipelineExtractorKind::Compute { .. } => ShaderStages::compute(),
        };
        assert(1u32 | 2u32 == 3u32) by (bit_vector);
        PipelineExtractorState { shaders, shaders_loaded: ShaderStages::empty(), action: None }
    }

    /// Marks the stages `stage` loaded or not loaded.
    pub fn shader_updated(&mut self, stage: ShaderStages, loaded: bool)
        ensures
            *final(self) == old(self).with_loaded(loaded_after(old(self).spec_loaded(), stage.bits, loaded)),
    {
        let bits = if loaded {
            self.shaders_loaded.bits | stage.bits
        } else {
            self.shaders_loaded.bits & !stage.bits
        };
        self.shaders_loaded = ShaderStages::from_bits(bits);
    }

    pub fn action(&self) -> (r: Option<PipelineAction>)
        ensures
            r == self.spec_action(),
    {
        self.action
    }

    /// Whether every stage the extractor needs is loaded.
    pub fn are_shaders_loaded(&self) -> (r: bool)
        ensures
            r == self.ready(),
    {
        self.shaders.difference(self.shaders_loaded).is_empty()
    }

    fn set_action(&mut self, action: PipelineAction)
        ensures
            *final(self) == old(self).with_action(action),
    {
        self.action = Some(action);
    }
}

/// A shader that pipeline extractors need: its path, the extractors (by
/// position) that need it, and the stages it serves them.
pub struct ShaderUse {
    path: LoadPath,
    extractors: Vec<usize>,
    stages: ShaderStages,
}

/// A shader use as a value.
pub struct ShaderUseView {
    pub path: PathView,
    pub extractors: Seq<usize>,
    pub stages: u32,
}

impl View for ShaderUse {
    type V = ShaderUseView;

    closed spec fn view(&self) -> ShaderUseView {
        ShaderUseView { path: self.path@, extractors: self.extractors@, stages: self.stages.bits }
    }
}

/// The views of a list of shader uses.
pub open spec fn use_views(s: Seq<ShaderUse>) -> Seq<ShaderUseView> {
    s.map_values(|u: ShaderUse| u@)
}

/// The last position of `path` among the uses, or -1.
pub open spec fn find_path(s: Seq<ShaderUseView>, path: PathView) -> int
    decreases s.len(),
{
    if s.len() == 0 {
        -1
    } else if s.last().path == path {
        s.len() - 1
    } else {
        find_path(s.drop_last(), path)
    }
}

/// No path is used twice.
pub open spec fn paths_unique(s: Seq<ShaderUseView>) -> bool {
    forall|a: int, b: int| 0 <= a < b < s.len() ==> s[a].path != s[b].path
}

/// Every extractor position a use lists is below `n`.
pub open spec fn uses_below(s: Seq<ShaderUseView>, n: int) -> bool {
    forall|p: int, k: int| 0 <= p < s.len() && 0 <= k < s[p].extractors.len() ==> s[p].extractors[k] < n
}

/// Every extractor a shader lists needs one of the stages the shader serves.
pub open spec fn uses_needed(states: Seq<PipelineExtractorState>, s: Seq<ShaderUseView>) -> bool {
    forall|p: int, k: int|
        0 <= p < s.len() && 0 <= k < s[p].extractors.len() ==> #[trigger] (states[s[p].extractors[k] as int].spec_shaders()
            & s[p].stages) != 0
}

/// A stage set that meets `a` still meets `a` once it grows.
pub proof fn lemma_meets_grown(a: u32, b: u32, c: u32)
    requires
        a & b != 0,
    ensures
        a & (b | c) != 0,
        a & (c | b) != 0,
{
    assert(a & b != 0 ==> a & (b | c) != 0) by (bit_vector);
    assert(a & b != 0 ==> a & (c | b) != 0) by (bit_vector);
}

/// Adding a use by an extractor that needs the stage keeps every listed
/// extractor needing its shader.
pub proof fn lemma_add_step_needed(
    states: Seq<PipelineExtractorState>,
    s: Seq<ShaderUseView>,
    path: PathView,
    stage: u32,
    index: usize,
)
    requires
        uses_needed(states, s),
        index < states.len(),
        states[index as int].spec_shaders() & stage != 0,
    ensures
        uses_needed(states, add_shader_step(s, path, stage, index)),
{
    let t = add_shader_step(s, path, stage, index);
    let f = find_path(s, path);
    lemma_find_path(s, path);
    assert forall|p: int, k: int| 0 <= p < t.len() && 0 <= k < t[p].extractors.len() implies #[trigger] (
    states[t[p].extractors[k] as int].spec_shaders() & t[p].stages) != 0 by {
        if f >= 0 && p == f {
            if k < s[p].extractors.len() {
                assert(t[p].extractors[k] == s[p].extractors[k]);
                assert((states[s[p].extractors[k] as int].spec_shaders() & s[p].stages) != 0);
                lemma_meets_grown(states[s[p].extractors[k] as int].spec_shaders(), s[p].stages, stage);
            } else {
                assert(t[p].extractors[k] == index);
                lemma_meets_grown(states[index as int].spec_shaders(), stage, s[p].stages);
            }
        } else if f < 0 && p == s.len() {
            assert(t[p].extractors =~= seq![index]);
        } else {
            assert(t[p] == s[p]);
        }
    }
}

/// Lists of uses that need their shaders still do when more states follow
/// and listed states keep their stages.
pub proof fn lemma_needed_states(
    before: Seq<PipelineExtractorState>,
    after: Seq<PipelineExtractorState>,
    s: Seq<ShaderUseView>,
)
    requires
        uses_needed(before, s),
        uses_below(s, before.len() as int),
        before.len() <= after.len(),
        forall|i: int| 0 <= i < before.len() ==> #[trigger] after[i].spec_shaders() == before[i].spec_shaders(),
    ensures
        uses_needed(after, s),
{
    assert forall|p: int, k: int| 0 <= p < s.len() && 0 <= k < s[p].extractors.len() implies #[trigger] (
    after[s[p].extractors[k] as int].spec_shaders() & s[p].stages) != 0 by {
        assert((before[s[p].extractors[k] as int].spec_shaders() & s[p].stages) != 0);
    }
}

/// `find_path` finds a use of `path` if there is one, and none otherwise.
pub proof fn lemma_find_path(s: Seq<ShaderUseView>, path: PathView)
    ensures
        -1 <= find_path(s, path) < s.len(),
        find_path(s, path) >= 0 ==> s[find_path(s, path)].path == path,
        find_path(s, path) == -1 ==> forall|i: int| 0 <= i < s.len() ==> s[i].path != path,
    decreases s.len(),
{
    if s.len() > 0 && s.last().path != path {
        lemma_find_path(s.drop_last(), path);
        assert forall|i: int| 0 <= i < s.len() && find_path(s, path) == -1 implies s[i].path != path by {
            if i < s.len() - 1 {
                assert(s[i] == s.drop_last()[i]);
            }
        }
    }
}

/// Among uses with distinct paths, a use of `path` is the one `find_path` finds.
pub proof fn lemma_find_path_unique(s: Seq<ShaderUseView>, path: PathView, i: int)
    requires
        paths_unique(s),
        0 <= i < s.len(),
        s[i].path == path,
    ensures
        find_path(s, path) == i,
{
    lemma_find_path(s, path);
}

/// The uses after `index` needs the shader at `path` for `stage`: a known
/// path gains the extractor and the stage, a new one is added last.
pub open spec fn add_shader_step(s: Seq<ShaderUseView>, path: PathView, stage: u32, index: usize) -> Seq<
    ShaderUseView,
> {
    let p = find_path(s, path);
    if p >= 0 {
        s.update(p, ShaderUseView { path, extractors: s[p].extractors.push(index), stages: s[p].stages | stage })
    } else {
        s.push(ShaderUseView { path, extractors: seq![index], stages: stage })
    }
}

/// The uses after an extractor at position `index` of kind `kind` was added.
pub open spec fn add_kind_shaders(s: Seq<ShaderUseView>, kind: &PipelineExtractorKind, index: usize) -> Seq<
    ShaderUseView,
> {
    match kind {
        PipelineExtractorKind::Render { vertex_shader, fragment_shader } => add_shader_step(
            add_shader_step(s, vertex_shader@, 1, index),
            fragment_shader@,
            2,
            index,
        ),
        PipelineExtractorKind::Compute { shader } => add_shader_step(s, shader@, 4, index),
    }
}

/// The position of a use of `path`.
fn find_use(shaders: &Vec<ShaderUse>, path: &LoadPath) -> (r: Option<usize>)
    ensures
        match r {
            Some(i) => i < shaders@.len() && shaders@[i as int]@.path == path@,
            None => forall|i: int| 0 <= i < shaders@.len() ==> shaders@[i]@.path != path@,
        },
{
    let mut i: usize = 0;
    while i < shaders.len()
        invariant
            i <= shaders@.len(),
            forall|k: int| 0 <= k < i ==> shaders@[k]@.path != path@,
        decreases shaders@.len() - i,
    {
        if shaders[i].path.same(path) {
            return Some(i);
        }
        i = i + 1;
    }
    None
}

/// Records that the extractor at `index` needs the shader at `path` for `stage`.
fn add_shader(shaders: &mut Vec<ShaderUse>, path: LoadPath, stage: ShaderStages, index: usize, Ghost(n): Ghost<int>)
    requires
        paths_unique(use_views(old(shaders)@)),
        uses_below(use_views(old(shaders)@), n),
        index < n,
    ensures
        use_views(final(shaders)@) == add_shader_step(use_views(old(shaders)@), path@, stage.bits, index),
        paths_unique(use_views(final(shaders)@)),
        uses_below(use_views(final(shaders)@), n),
{
    let ghost before = use_views(shaders@);
    match find_use(shaders, &path) {
        Some(i) => {
            proof {
                assert(before[i as int].path == path@);
                lemma_find_path_unique(before, path@, i as int);
            }
            let ShaderUse { path: p, mut extractors, stages } = shaders.remove(i);
            extractors.push(index);
            let u = ShaderUse { path: p, extractors, stages: stages.union(stage) };
            shaders.insert(i, u);
            proof {
                let after = use_views(shaders@);
                assert(after =~= add_shader_step(before, path@, stage.bits, index)) by {
                    assert forall|k: int| 0 <= k < after.len() implies after[k] == add_shader_step(
                        before,
                        path@,
                        stage.bits,
                        index,
                    )[k] by {
                        if k != i {
                            assert(after[k] == before[k]);
                        }
                    }
                }
            }
        },
        None => {
            proof {
                lemma_find_path(before, path@);
            }
            let mut extractors: Vec<usize> = Vec::new();
            extractors.push(index);
            shaders.push(ShaderUse { path, extractors, stages: stage });
            proof {
                let after = use_views(shaders@);
                assert(after[before.len() as int].extractors =~= seq![index]);
                assert(after =~= add_shader_step(before, path@, stage.bits, index));
            }
        },
    }
}

/// The states after the shader serving `stages` loaded or unloaded, for
/// the extractors at `indices`.
pub open spec fn states_after(
    states: Seq<PipelineExtractorState>,
    indices: Seq<usize>,
    stages: u32,
    loaded: bool,
) -> Seq<PipelineExtractorState> {
    Seq::new(
        states.len(),
        |j: int|
            if indices.contains(j as usize) {
                states[j].with_loaded(loaded_after(states[j].spec_loaded(), stages, loaded))
            } else {
                states[j]
            },
    )
}

/// The types of the extractors at `indices`, in order, that were asked to
/// extract and whose shaders are all loaded in `after`.
pub open spec fn ready_types(types: Seq<u32>, after: Seq<PipelineExtractorState>, indices: Seq<usize>) -> Seq<u32>
    decreases indices.len(),
{
    if indices.len() == 0 {
        Seq::empty()
    } else {
        let rest = ready_types(types, after, indices.drop_last());
        let i = indices.last() as int;
        if after[i].spec_action() == Some(PipelineAction::Extract) && after[i].ready() {
            rest.push(types[i])
        } else {
            rest
        }
    }
}

/// The queued actions after each of `keys` was queued for extraction.
pub open spec fn queue_extracts(actions: Map<u32, PipelineAction>, keys: Seq<u32>) -> Map<u32, PipelineAction>
    decreases keys.len(),
{
    if keys.len() == 0 {
        actions
    } else {
        queue_extracts(actions, keys.drop_last()).insert(keys.last(), PipelineAction::Extract)
    }
}

/// The order of the queued actions after each of `keys` was queued: a key
/// not yet queued goes last.
pub open spec fn order_after(order: Seq<u32>, keys: Seq<u32>) -> Seq<u32>
    decreases keys.len(),
{
    if keys.len() == 0 {
        order
    } else {
        let o = order_after(order, keys.drop_last());
        if o.contains(keys.last()) {
            o
        } else {
            o.push(keys.last())
        }
    }
}

/// Queuing one key puts it last unless it is queued already.
pub proof fn lemma_order_after_one(order: Seq<u32>, k: u32)
    ensures
        order_after(order, seq![k]) == (if order.contains(k) {
            order
        } else {
            order.push(k)
        }),
{
    let ks = seq![k];
    assert(ks.drop_last() =~= Seq::<u32>::empty());
    assert(ks.last() == k);
    assert(order_after(order, ks.drop_last()) == order);
    assert(ks.len() == 1);
}

/// The abstract state of the pipeline extractors.
pub struct PipelineExtractorsView {
    pub types: Seq<u32>,
    pub states: Seq<PipelineExtractorState>,
    pub shaders: Seq<ShaderUseView>,
    pub actions: Map<u32, PipelineAction>,
    pub action_order: Seq<u32>,
}

/// The state after the extractor of type `ty`, of kind `kind`, was added:
/// a known type changes nothing; a new one goes last, asked nothing and
/// with no shader loaded, and the shaders of its kind record that it needs them.
pub open spec fn spec_add_extractor(v: PipelineExtractorsView, ty: u32, kind: &PipelineExtractorKind) -> PipelineExtractorsView {
    if v.types.contains(ty) {
        v
    } else {
        PipelineExtractorsView {
            types: v.types.push(ty),
            states: v.states.push(PipelineExtractorState::new_spec(kind_stages(kind))),
            shaders: add_kind_shaders(v.shaders, kind, v.types.len() as usize),
            actions: v.actions,
            action_order: v.action_order,
        }
    }
}

/// The state after the extractor of type `ty` was asked to extract: its
/// action becomes `Extract`, and an extraction is queued when its shaders
/// are all loaded. An unknown type changes nothing.
pub open spec fn spec_extract(v: PipelineExtractorsView, ty: u32) -> PipelineExtractorsView {
    if !v.types.contains(ty) {
        v
    } else {
        let i = v.types.index_of(ty);
        let st = v.states[i];
        PipelineExtractorsView {
            types: v.types,
            states: v.states.update(i, st.with_action(PipelineAction::Extract)),
            shaders: v.shaders,
            actions: if st.ready() {
                v.actions.insert(ty, PipelineAction::Extract)
            } else {
                v.actions
            },
            action_order: if st.ready() {
                order_after(v.action_order, seq![ty])
            } else {
                v.action_order
            },
        }
    }
}

/// Whether the extractor of type `ty` exists and was last asked to extract.
pub open spec fn asked_to_extract(v: PipelineExtractorsView, ty: u32) -> bool {
    v.types.contains(ty) && v.states[v.types.index_of(ty)].spec_action() == Some(PipelineAction::Extract)
}

/// The state after the extractor of type `ty` was asked to remove its
/// pipeline: only when it was last asked to extract, its action becomes
/// `Remove` and a removal is queued.
pub open spec fn spec_remove(v: PipelineExtractorsView, ty: u32) -> PipelineExtractorsView {
    if !asked_to_extract(v, ty) {
        v
    } else {
        let i = v.types.index_of(ty);
        PipelineExtractorsView {
            types: v.types,
            states: v.states.update(i, v.states[i].with_action(PipelineAction::Remove)),
            shaders: v.shaders,
            actions: v.actions.insert(ty, PipelineAction::Remove),
            action_order: order_after(v.action_order, seq![ty]),
        }
    }
}

/// The state after the shader at `path` loaded (or unloaded): the
/// extractors that need it get its stages marked, and those asked to
/// extract whose shaders are now all loaded get an extraction queued. An
/// unknown path changes nothing.
pub open spec fn spec_shader_updated(v: PipelineExtractorsView, path: PathView, loaded: bool) -> PipelineExtractorsView {
    let p = find_path(v.shaders, path);
    if p < 0 {
        v
    } else {
        let u = v.shaders[p];
        let after = states_after(v.states, u.extractors, u.stages, loaded);
        let ready = ready_types(v.types, after, u.extractors);
        PipelineExtractorsView {
            types: v.types,
            states: after,
            shaders: v.shaders,
            actions: queue_extracts(v.actions, ready),
            action_order: order_after(v.action_order, ready),
        }
    }
}

/// The pipeline extractors by type, in the order they were added, the
/// shaders they need, and the pipeline actions queued for the render world.
pub struct PipelineExtractors {
    types: Vec<u32>,
    states: Vec<PipelineExtractorState>,
    shaders: Vec<ShaderUse>,
    actions: IdMap<PipelineAction>,
}

impl View for PipelineExtractors {
    type V = PipelineExtractorsView;

    closed spec fn view(&self) -> PipelineExtractorsView {
        PipelineExtractorsView {
            types: self.types@,
            states: self.states@,
            shaders: use_views(self.shaders@),
            actions: self.actions@,
            action_order: self.actions.key_seq(),
        }
    }
}

/// The position of `ty` among the extractor types.
fn find_type(types: &Vec<u32>, ty: u32) -> (r: Option<usize>)
    ensures
        match r {
            Some(i) => i < types@.len() && types@[i as int] == ty,
            None => !types@.contains(ty),
        },
{
    let mut i: usize = 0;
    while i < types.len()
        invariant
            0 <= i <= types@.len(),
            forall|j: int| 0 <= j < i ==> types@[j] != ty,
        decreases types.len() - i,
    {
        if types[i] == ty {
            return Some(i);
        }
        i = i + 1;
    }
    None
}

impl PipelineExtractors {
    #[verifier::type_invariant]
    spec fn inv(&self) -> bool {
        &&& self.types@.len() == self.states@.len()
        &&& self.types@.no_duplicates()
        &&& paths_unique(use_views(self.shaders@))
        &&& uses_below(use_views(self.shaders@), self.types@.len() as int)
        &&& uses_needed(self.states@, use_views(self.shaders@))
    }

    /// Whether the state is one the extractors can be in: as many states as
    /// types, no type twice, no shader path twice, and every extractor a
    /// shader lists exists.
    pub open spec fn valid(v: PipelineExtractorsView) -> bool {
        &&& v.types.len() == v.states.len()
        &&& v.types.no_duplicates()
        &&& paths_unique(v.shaders)
        &&& uses_below(v.shaders, v.types.len() as int)
        &&& uses_needed(v.states, v.shaders)
        &&& forall|k: u32| v.actions.contains_key(k) <==> v.action_order.contains(k)
        &&& v.action_order.no_duplicates()
    }

    /// No extractor, no shader, nothing queued.
    pub fn new() -> (r: PipelineExtractors)
        ensures
            r@.types == Seq::<u32>::empty(),
            r@.states == Seq::<PipelineExtractorState>::empty(),
            r@.shaders == Seq::<ShaderUseView>::empty(),
            r@.actions == Map::<u32, PipelineAction>::empty(),
            r@.action_order == Seq::<u32>::empty(),
    {
        let r = PipelineExtractors { types: Vec::new(), states: Vec::new(), shaders: Vec::new(), actions: IdMap::new() };
        assert(use_views(r.shaders@) =~= Seq::<ShaderUseView>::empty());
        r
    }

    /// The state is valid.
    pub fn check(&self) -> (r: bool)
        ensures
            r,
            PipelineExtractors::valid(self@),
    {
        proof {
            use_type_invariant(self);
            self.actions.lemma_key_seq();
        }
        let _ = self.actions.len();
        true
    }

    /// Adds the extractor of type `ty`, of kind `kind`, unless it is known:
    /// it goes last, asked nothing and with no shader loaded, and the
    /// shaders of its kind record that it needs them.
    pub fn add_extractor(&mut self, ty: u32, kind: PipelineExtractorKind)
        ensures
            final(self)@ == spec_add_extractor(old(self)@, ty, &kind),
    {
        proof {
            use_type_invariant(&*self);
        }
        if find_type(&self.types, ty).is_some() {
            return ;
        }
        let state = PipelineExtractorState::new(&kind);
        let mut taken = PipelineExtractors::new();
        std::mem::swap(&mut taken, self);
        let PipelineExtractors { mut types, mut states, mut shaders, actions } = taken;
        let index = types.len();
        types.push(ty);
        states.push(state);
        proof {
            assert(types@.no_duplicates()) by {
                assert forall|a: int, b: int| 0 <= a < b < types@.len() implies types@[a] != types@[b] by {
                    if b == index {
                        assert(types@[a] == old(self)@.types[a]);
                    }
                }
            }
            assert(uses_below(use_views(shaders@), types@.len() as int));
            assert(state == PipelineExtractorState::new_spec(kind_stages(&kind)));
            lemma_needed_states(old(self)@.states, states@, use_views(shaders@));
            assert(3u32 & 1u32 != 0 && 3u32 & 2u32 != 0 && 4u32 & 4u32 != 0) by (bit_vector);
        }
        match kind {
            PipelineExtractorKind::Render { vertex_shader, fragment_shader } => {
                let ghost s0 = use_views(shaders@);
                let ghost p0 = vertex_shader@;
                add_shader(&mut shaders, vertex_shader, ShaderStages::vertex(), index, Ghost(types@.len() as int));
                proof {
                    lemma_add_step_needed(states@, s0, p0, 1, index);
                }
                let ghost s1 = use_views(shaders@);
                let ghost p1 = fragment_shader@;
                add_shader(
                    &mut shaders,
                    fragment_shader,
                    ShaderStages::fragment(),
                    index,
                    Ghost(types@.len() as int),
                );
                proof {
                    lemma_add_step_needed(states@, s1, p1, 2, index);
                }
            },
            PipelineExtractorKind::Compute { shader } => {
                let ghost s0 = use_views(shaders@);
                let ghost p0 = shader@;
                add_shader(&mut shaders, shader, ShaderStages::compute(), index, Ghost(types@.len() as int));
                proof {
                    lemma_add_step_needed(states@, s0, p0, 4, index);
                }
            },
        }
        *self = PipelineExtractors { types, states, shaders, actions };
    }
}

impl PipelineExtractors {
    /// Asks the extractor of type `ty` to extract its pipeline: its action
    /// becomes `Extract`, and when its shaders are all loaded an extraction
    /// is queued for it. An unknown type changes nothing.
    pub fn extract(&mut self, ty: u32)
        ensures
            final(self)@ == spec_extract(old(self)@, ty),
    {
        proof {
            use_type_invariant(&*self);
        }
        match find_type(&self.types, ty) {
            Some(i) => {
                proof {
                    crate::graph_resources::lemma_index_of_unique(self.types@, i as int);
                    self.actions.lemma_key_seq();
                    lemma_order_after_one(self.actions.key_seq(), ty);
                }
                let mut taken = PipelineExtractors::new();
                std::mem::swap(&mut taken, self);
                let PipelineExtractors { types, mut states, shaders, mut actions } = taken;
                let mut st = states[i];
                st.set_action(PipelineAction::Extract);
                let ready = st.are_shaders_loaded();
                let ghost before = states@;
                states.set(i, st);
                proof {
                    before[i as int].lemma_replacements(0, PipelineAction::Extract);
                    lemma_needed_states(before, states@, use_views(shaders@));
                }
                if ready {
                    actions.insert(ty, PipelineAction::Extract);
                }
                *self = PipelineExtractors { types, states, shaders, actions };
            },
            None => {},
        }
    }

    /// Asks the extractor of type `ty` to remove its pipeline, if it was last
    /// asked to extract one: its action becomes `Remove` and a removal is
    /// queued for it. Otherwise nothing changes.
    pub fn remove(&mut self, ty: u32)
        ensures
            final(self)@ == spec_remove(old(self)@, ty),
    {
        proof {
            use_type_invariant(&*self);
        }
        match find_type(&self.types, ty) {
            Some(i) => {
                proof {
                    crate::graph_resources::lemma_index_of_unique(self.types@, i as int);
                    self.actions.lemma_key_seq();
                    lemma_order_after_one(self.actions.key_seq(), ty);
                }
                if self.states[i].action() == Some(PipelineAction::Extract) {
                    let mut taken = PipelineExtractors::new();
                    std::mem::swap(&mut taken, self);
                    let PipelineExtractors { types, mut states, shaders, mut actions } = taken;
                    let mut st = states[i];
                    st.set_action(PipelineAction::Remove);
                    let ghost before = states@;
                    states.set(i, st);
                    proof {
                        before[i as int].lemma_replacements(0, PipelineAction::Remove);
                        lemma_needed_states(before, states@, use_views(shaders@));
                    }
                    actions.insert(ty, PipelineAction::Remove);
                    *self = PipelineExtractors { types, states, shaders, actions };
                }
            },
            None => {},
        }
    }

    /// Records that the shader at `path` loaded (or unloaded): each
    /// extractor that needs it gets the shader's stages marked, and each of
    /// them that was asked to extract and now has all its shaders loaded
    /// gets an extraction queued, in the order the shader lists them. An
    /// unknown path changes nothing.
    pub fn shader_updated(&mut self, path: LoadPath, loaded: bool)
        ensures
            final(self)@ == spec_shader_updated(old(self)@, path@, loaded),
    {
        proof {
            use_type_invariant(&*self);
            lemma_find_path(use_views(self.shaders@), path@);
        }
        let p = match find_use(&self.shaders, &path) {
            Some(p) => p,
            None => {
                return ;
            },
        };
        proof {
            lemma_find_path_unique(use_views(self.shaders@), path@, p as int);
        }
        let ghost u = use_views(self.shaders@)[p as int];
        let ghost orig = self.states@;
        let ghost oa = self.actions@;
        let ghost oo = self.actions.key_seq();
        let ghost after = states_after(orig, u.extractors, u.stages, loaded);
        let mut taken = PipelineExtractors::new();
        std::mem::swap(&mut taken, self);
        let PipelineExtractors { types, mut states, shaders, mut actions } = taken;
        let stages = shaders[p].stages;
        let n = types.len();
        let mut k: usize = 0;
        while k < shaders[p].extractors.len()
            invariant
                p < shaders@.len(),
                u == use_views(shaders@)[p as int],
                stages.bits == u.stages,
                n == types@.len(),
                states@.len() == n,
                orig.len() == n,
                uses_below(use_views(shaders@), n as int),
                after == states_after(orig, u.extractors, u.stages, loaded),
                k <= u.extractors.len(),
                forall|j: int|
                    0 <= j < n ==> #[trigger] states@[j] == (if u.extractors.subrange(0, k as int).contains(
                        j as usize,
                    ) {
                        after[j]
                    } else {
                        orig[j]
                    }),
                actions@ == queue_extracts(oa, ready_types(types@, after, u.extractors.subrange(0, k as int))),
                actions.key_seq() == order_after(oo, ready_types(types@, after, u.extractors.subrange(0, k as int))),
            decreases u.extractors.len() - k,
        {
            let idx = shaders[p].extractors[k];
            proof {
                assert(use_views(shaders@)[p as int].extractors[k as int] == idx);
                assert(idx < n);
            }
            let mut st = states[idx];
            st.shader_updated(stages, loaded);
            let extract = st.action() == Some(PipelineAction::Extract) && st.are_shaders_loaded();
            let ghost before_states = states@;
            states.set(idx, st);
            let ghost pre = ready_types(types@, after, u.extractors.subrange(0, k as int));
            proof {
                let sub = u.extractors.subrange(0, k as int);
                let sub1 = u.extractors.subrange(0, k + 1);
                assert(sub1.drop_last() =~= sub);
                assert(sub1.last() == idx);
                assert(u.extractors.contains(idx));
                lemma_loaded_after_idempotent(orig[idx as int].spec_loaded(), u.stages, loaded);
                assert(st == after[idx as int]);
                assert forall|j: int| 0 <= j < n implies #[trigger] states@[j] == (if sub1.contains(j as usize) {
                    after[j]
                } else {
                    orig[j]
                }) by {
                    if j != idx {
                        assert(states@[j] == before_states[j]);
                        if sub1.contains(j as usize) {
                            let w = choose|w: int| 0 <= w < sub1.len() && sub1[w] == j as usize;
                            assert(w != k);
                            assert(sub[w] == j as usize);
                        }
                        if sub.contains(j as usize) {
                            let w = choose|w: int| 0 <= w < sub.len() && sub[w] == j as usize;
                            assert(sub1[w] == j as usize);
                        }
                    } else {
                        assert(sub1[k as int] == idx);
                    }
                }
            }
            if extract {
                proof {
                    actions.lemma_key_seq();
                }
                actions.insert(types[idx], PipelineAction::Extract);
                proof {
                    let sub1 = u.extractors.subrange(0, k + 1);
                    assert(ready_types(types@, after, sub1) == pre.push(types@[idx as int]));
                    assert(pre.push(types@[idx as int]).drop_last() =~= pre);
                    actions.lemma_key_seq();
                }
            } else {
                proof {
                    let sub1 = u.extractors.subrange(0, k + 1);
                    assert(ready_types(types@, after, sub1) == pre);
                }
            }
            k = k + 1;
        }
        proof {
            assert(u.extractors.subrange(0, u.extractors.len() as int) =~= u.extractors);
            assert(states@ =~= after);
            assert forall|i: int| 0 <= i < orig.len() implies #[trigger] states@[i].spec_shaders()
                == orig[i].spec_shaders() by {
                orig[i].lemma_replacements(loaded_after(orig[i].spec_loaded(), u.stages, loaded), PipelineAction::Extract);
            }
            lemma_needed_states(orig, states@, use_views(shaders@));
        }
        *self = PipelineExtractors { types, states, shaders, actions };
    }

    /// Hands out the queued pipeline actions, in the order they were first
    /// queued, and forgets them.
    pub fn take_actions(&mut self) -> (r: IdMap<PipelineAction>)
        ensures
            r@ == old(self)@.actions,
            r.key_seq() == old(self)@.action_order,
            final(self)@.actions == Map::<u32, PipelineAction>::empty(),
            final(self)@.action_order == Seq::<u32>::empty(),
            final(self)@.types == old(self)@.types,
            final(self)@.states == old(self)@.states,
            final(self)@.shaders == old(self)@.shaders,
    {
        proof {
            use_type_invariant(&*self);
        }
        let mut taken = PipelineExtractors::new();
        std::mem::swap(&mut taken, self);
        let PipelineExtractors { types, states, shaders, actions } = taken;
        *self = PipelineExtractors { types, states, shaders, actions: IdMap::new() };
        actions
    }

    /// The extractor types, in the order they were added.
    pub fn types(&self) -> (r: &[u32])
        ensures
            r@ == self@.types,
    {
        self.types.as_slice()
    }

    /// The state of the extractor at position `index`.
    pub fn state(&self, index: usize) -> (r: PipelineExtractorState)
        requires
            index < self@.states.len(),
        ensures
            r == self@.states[index as int],
    {
        self.states[index]
    }
}

impl PipelineExtractorState {
    /// The state a new extractor needing the stages `shaders` starts in.
    pub closed spec fn new_spec(shaders: u32) -> PipelineExtractorState {
        PipelineExtractorState {
            shaders: ShaderStages { bits: shaders },
            shaders_loaded: ShaderStages { bits: 0 },
            action: None,
        }
    }

    /// What a new state holds.
    pub proof fn lemma_new_spec(shaders: u32)
        ensures
            PipelineExtractorState::new_spec(shaders).spec_shaders() == shaders,
            PipelineExtractorState::new_spec(shaders).spec_loaded() == 0,
            PipelineExtractorState::new_spec(shaders).spec_action() == None::<PipelineAction>,
    {
    }
}
} // verus!

verus! {

/// Adding an extractor a second time changes nothing, whatever kind it is
/// given the second time.
pub proof fn lemma_add_extractor_idempotent(
    v: PipelineExtractorsView,
    ty: u32,
    first: &PipelineExtractorKind,
    second: &PipelineExtractorKind,
)
    ensures
        spec_add_extractor(spec_add_extractor(v, ty, first), ty, second) == spec_add_extractor(v, ty, first),
{
    let w = spec_add_extractor(v, ty, first);
    if !v.types.contains(ty) {
        assert(w.types[v.types.len() as int] == ty);
    }
}

/// Asking to remove a pipeline that was not last asked to be extracted
/// changes nothing.
pub proof fn lemma_remove_needs_extract(v: PipelineExtractorsView, ty: u32)
    requires
        !asked_to_extract(v, ty),
    ensures
        spec_remove(v, ty) == v,
{
}

/// Extracting and then removing a known pipeline leaves a removal queued
/// for it and its action `Remove`.
pub proof fn lemma_extract_then_remove(v: PipelineExtractorsView, ty: u32)
    requires
        PipelineExtractors::valid(v),
        v.types.contains(ty),
    ensures
        spec_remove(spec_extract(v, ty), ty).actions.contains_key(ty),
        spec_remove(spec_extract(v, ty), ty).actions[ty] == PipelineAction::Remove,
        spec_remove(spec_extract(v, ty), ty).states[v.types.index_of(ty)].spec_action() == Some(
            PipelineAction::Remove,
        ),
{
    let i = v.types.index_of(ty);
    let st = v.states[i];
    st.lemma_replacements(0, PipelineAction::Extract);
    st.with_action(PipelineAction::Extract).lemma_replacements(0, PipelineAction::Remove);
    assert(asked_to_extract(spec_extract(v, ty), ty));
}

/// Removing twice is removing once: the second request finds the action
/// `Remove` and changes nothing.
pub proof fn lemma_remove_twice(v: PipelineExtractorsView, ty: u32)
    requires
        PipelineExtractors::valid(v),
    ensures
        spec_remove(spec_remove(v, ty), ty) == spec_remove(v, ty),
{
    if asked_to_extract(v, ty) {
        let i = v.types.index_of(ty);
        v.states[i].lemma_replacements(0, PipelineAction::Remove);
        assert(!asked_to_extract(spec_remove(v, ty), ty));
    }
}

/// A type in `ready_types` is that of an extractor among `indices` that
/// was asked to extract and has every shader it needs loaded in `after`.
pub proof fn lemma_ready_types(types: Seq<u32>, after: Seq<PipelineExtractorState>, indices: Seq<usize>, t: u32)
    requires
        ready_types(types, after, indices).contains(t),
    ensures
        exists|k: int|
            0 <= k < indices.len() && types[#[trigger] indices[k] as int] == t && after[indices[k] as int].spec_action()
                == Some(PipelineAction::Extract) && after[indices[k] as int].ready(),
    decreases indices.len(),
{
    let d = indices.drop_last();
    let rest = ready_types(types, after, d);
    let i = indices.last() as int;
    if after[i].spec_action() == Some(PipelineAction::Extract) && after[i].ready() && t == types[i] {
        assert(indices[indices.len() - 1] == indices.last());
    } else {
        assert(rest.contains(t)) by {
            if !(after[i].spec_action() == Some(PipelineAction::Extract) && after[i].ready()) {
            } else {
                let w = choose|w: int| 0 <= w < rest.push(types[i]).len() && rest.push(types[i])[w] == t;
                assert(w < rest.len());
                assert(rest[w] == t);
            }
        }
        lemma_ready_types(types, after, d, t);
        let k = choose|k: int|
            0 <= k < d.len() && types[#[trigger] d[k] as int] == t && after[d[k] as int].spec_action() == Some(
                PipelineAction::Extract,
            ) && after[d[k] as int].ready();
        assert(indices[k] == d[k]);
    }
}

/// Queuing extractions for `keys` sets each of them to `Extract` and
/// keeps every other queued action.
pub proof fn lemma_queue_extracts(actions: Map<u32, PipelineAction>, keys: Seq<u32>, t: u32)
    ensures
        queue_extracts(actions, keys).contains_key(t) <==> (actions.contains_key(t) || keys.contains(t)),
        keys.contains(t) ==> queue_extracts(actions, keys)[t] == PipelineAction::Extract,
        !keys.contains(t) && actions.contains_key(t) ==> queue_extracts(actions, keys)[t] == actions[t],
    decreases keys.len(),
{
    if keys.len() > 0 {
        let d = keys.drop_last();
        lemma_queue_extracts(actions, d, t);
        if keys.contains(t) && t != keys.last() {
            let w = choose|w: int| 0 <= w < keys.len() && keys[w] == t;
            assert(w != keys.len() - 1);
            assert(d[w] == t);
        }
        if d.contains(t) {
            let w = choose|w: int| 0 <= w < d.len() && d[w] == t;
            assert(keys[w] == t);
        }
        if t == keys.last() {
            assert(keys[keys.len() - 1] == t);
        }
    }
}

/// When a shader loads or unloads, every action it newly queues or changes
/// is an extraction, for an extractor that was asked to extract and now
/// has every shader it needs loaded.
pub proof fn lemma_shader_update_queues_ready(v: PipelineExtractorsView, path: PathView, loaded: bool, t: u32)
    requires
        PipelineExtractors::valid(v),
        spec_shader_updated(v, path, loaded).actions.contains_key(t),
        !v.actions.contains_key(t) || spec_shader_updated(v, path, loaded).actions[t] != v.actions[t],
    ensures
        spec_shader_updated(v, path, loaded).actions[t] == PipelineAction::Extract,
        exists|i: int|
            0 <= i < v.types.len() && v.types[i] == t && (#[trigger] spec_shader_updated(v, path, loaded).states[i]).spec_action()
                == Some(PipelineAction::Extract) && spec_shader_updated(v, path, loaded).states[i].ready(),
{
    let w = spec_shader_updated(v, path, loaded);
    let p = find_path(v.shaders, path);
    lemma_find_path(v.shaders, path);
    let u = v.shaders[p];
    let after = states_after(v.states, u.extractors, u.stages, loaded);
    let ready = ready_types(v.types, after, u.extractors);
    lemma_queue_extracts(v.actions, ready, t);
    lemma_ready_types(v.types, after, u.extractors, t);
    let k = choose|k: int|
        0 <= k < u.extractors.len() && v.types[#[trigger] u.extractors[k] as int] == t && after[u.extractors[k] as int].spec_action()
            == Some(PipelineAction::Extract) && after[u.extractors[k] as int].ready();
    let i = u.extractors[k] as int;
    assert(i < v.types.len());
    assert(w.states[i] == after[i]);
}

/// An update of a path no extractor needs changes nothing.
pub proof fn lemma_unknown_shader_update(v: PipelineExtractorsView, path: PathView, loaded: bool)
    requires
        forall|p: int| 0 <= p < v.shaders.len() ==> v.shaders[p].path != path,
    ensures
        spec_shader_updated(v, path, loaded) == v,
{
    lemma_find_path(v.shaders, path);
}

/// A stage set that shares a stage with `stages` still misses one once
/// `stages` are marked unloaded.
pub proof fn lemma_unloaded_misses(needed: u32, stages: u32, loaded: u32)
    requires
        needed & stages != 0,
    ensures
        needed & !(loaded & !stages) != 0,
{
    assert(needed & stages != 0 ==> needed & !(loaded & !stages) != 0) by (bit_vector);
}

/// No extractor at `indices` is ready once the shader serving `stages`
/// unloaded, when each of them needs one of those stages; so none is queued.
pub proof fn lemma_unloaded_ready_types(
    types: Seq<u32>,
    states: Seq<PipelineExtractorState>,
    indices: Seq<usize>,
    all: Seq<usize>,
    stages: u32,
)
    requires
        forall|k: int| 0 <= k < indices.len() ==> #[trigger] all.contains(indices[k]),
        forall|k: int| 0 <= k < indices.len() ==> indices[k] < states.len(),
        forall|k: int|
            0 <= k < indices.len() ==> (#[trigger] states[indices[k] as int].spec_shaders() & stages) != 0,
    ensures
        ready_types(types, states_after(states, all, stages, false), indices) == Seq::<u32>::empty(),
    decreases indices.len(),
{
    if indices.len() > 0 {
        let rest = indices.drop_last();
        assert forall|k: int| 0 <= k < rest.len() implies #[trigger] all.contains(rest[k]) by {
            assert(rest[k] == indices[k]);
        }
        assert forall|k: int| 0 <= k < rest.len() implies rest[k] < states.len() by {
            assert(rest[k] == indices[k]);
        }
        assert forall|k: int| 0 <= k < rest.len() implies (#[trigger] states[rest[k] as int].spec_shaders()
            & stages) != 0 by {
            assert(rest[k] == indices[k]);
        }
        lemma_unloaded_ready_types(types, states, rest, all, stages);
        let j = indices.last() as int;
        let k = indices.len() - 1;
        assert(all.contains(indices[k]));
        assert(states[indices[k] as int].spec_shaders() & stages != 0);
        let after = states_after(states, all, stages, false);
        let nl = loaded_after(states[j].spec_loaded(), stages, false);
        states[j].lemma_replacements(nl, PipelineAction::Extract);
        assert(after[j] == states[j].with_loaded(nl));
        lemma_unloaded_misses(states[j].spec_shaders(), stages, states[j].spec_loaded());
        assert(!after[j].ready());
    }
}

/// A shader that unloads queues nothing: every extractor that needs it
/// loses a stage it needs, so none of them becomes ready.
pub proof fn lemma_unload_queues_nothing(v: PipelineExtractorsView, path: PathView)
    requires
        PipelineExtractors::valid(v),
    ensures
        spec_shader_updated(v, path, false).actions == v.actions,
        spec_shader_updated(v, path, false).action_order == v.action_order,
{
    let p = find_path(v.shaders, path);
    lemma_find_path(v.shaders, path);
    if p >= 0 {
        let u = v.shaders[p];
        assert forall|k: int| 0 <= k < u.extractors.len() implies #[trigger] u.extractors.contains(u.extractors[k]) by {
        }
        assert forall|k: int| 0 <= k < u.extractors.len() implies (#[trigger] v.states[u.extractors[k] as int].spec_shaders()
            & u.stages) != 0 by {
            assert((v.states[v.shaders[p].extractors[k] as int].spec_shaders() & v.shaders[p].stages) != 0);
        }
        lemma_unloaded_ready_types(v.types, v.states, u.extractors, u.extractors, u.stages);
        let ready = ready_types(v.types, states_after(v.states, u.extractors, u.stages, false), u.extractors);
        assert(ready.len() == 0);
    }
}

} // verus!
