use crate::buffer::{Buffer, BufferView};
use crate::device::{DeviceCommand, RenderDevice};
use crate::flags::{BufferUsages, TextureUsages};
use crate::texture::{StorageDimension, TextureDescriptor, TextureFormat};
use std::marker::PhantomData;
use vstd::prelude::*;

verus! {

/// The CRC-32 checksum of the UTF-8 bytes of a name.
pub open spec fn name_crc32(name: Seq<char>) -> u32 {
    crate::bytes::crc32(crate::bytes::utf8_bytes(name))
}

/// Calls `crc32fast::hash` on the UTF-8 bytes of `name`; the result is
/// believed to be the CRC-32 (IEEE) checksum of those bytes.
#[verifier::external_body]
fn crc32_of_name(name: &str) -> (r: u32)
    ensures
        r == name_crc32(name@),
{
    crc32fast::hash(name.as_bytes())
}

/// The id of a render-graph resource of kind `T`: the checksum of its name.
#[derive(Debug)]
pub struct Id<T> {
    id: u32,
    marker: PhantomData<T>,
}

impl<T> Id<T> {
    /// The id named `name`.
    pub fn new(name: &str) -> (r: Id<T>)
        ensures
            r.spec_id() == name_crc32(name@),
    {
        Id { id: crc32_of_name(name), marker: PhantomData }
    }

    /// The id with the checksum `id`.
    pub fn from_raw(id: u32) -> (r: Id<T>)
        ensures
            r.spec_id() == id,
    {
        Id { id, marker: PhantomData }
    }

    pub closed spec fn spec_id(&self) -> u32 {
        self.id
    }

    pub fn id(&self) -> (r: u32)
        ensures
            r == self.spec_id(),
    {
        self.id
    }

    /// A copy of the id.
    pub fn copy(&self) -> (r: Id<T>)
        ensures
            r.spec_id() == self.spec_id(),
    {
        Id { id: self.id, marker: PhantomData }
    }
}

/// A resource of a render graph, named by a checksum of its name.
pub enum GraphResourceId {
    Texture(Id<RenderGraphTexture>),
    Buffer(Id<RenderGraphBuffer>),
}

/// The kinds of render-graph resources.
#[derive(Clone, Copy, PartialEq, Eq, Structural, Debug)]
pub enum ResourceKind {
    Texture,
    Buffer,
}

/// The kind of resource an id names.
pub open spec fn resource_kind(r: GraphResourceId) -> ResourceKind {
    match r {
        GraphResourceId::Texture(_) => ResourceKind::Texture,
        GraphResourceId::Buffer(_) => ResourceKind::Buffer,
    }
}

/// Ids of one kind that carry the same checksum name the same resource.
pub proof fn lemma_same_resource(a: GraphResourceId, b: GraphResourceId)
    ensures
        same_resource(a, b) <==> (resource_kind(a) == resource_kind(b) && resource_hash(a) == resource_hash(b)),
{
}

/// Whether two resource ids name the same resource.
pub open spec fn same_resource(a: GraphResourceId, b: GraphResourceId) -> bool {
    match (a, b) {
        (GraphResourceId::Texture(x), GraphResourceId::Texture(y)) => x.spec_id() == y.spec_id(),
        (GraphResourceId::Buffer(x), GraphResourceId::Buffer(y)) => x.spec_id() == y.spec_id(),
        _ => false,
    }
}

/// The name checksum a resource id carries.
pub open spec fn resource_hash(r: GraphResourceId) -> u32 {
    match r {
        GraphResourceId::Texture(x) => x.spec_id(),
        GraphResourceId::Buffer(x) => x.spec_id(),
    }
}

impl GraphResourceId {
    /// Whether `self` and `other` name the same resource.
    pub fn same(&self, other: &GraphResourceId) -> (r: bool)
        ensures
            r == same_resource(*self, *other),
    {
        match (self, other) {
            (GraphResourceId::Texture(x), GraphResourceId::Texture(y)) => x.id() == y.id(),
            (GraphResourceId::Buffer(x), GraphResourceId::Buffer(y)) => x.id() == y.id(),
            _ => false,
        }
    }

    /// A copy of the id.
    pub fn copy(&self) -> (r: GraphResourceId)
        ensures
            same_resource(r, *self),
            r is Texture <==> self is Texture,
    {
        match self {
            GraphResourceId::Texture(x) => GraphResourceId::Texture(x.copy()),
            GraphResourceId::Buffer(x) => GraphResourceId::Buffer(x.copy()),
        }
    }
}

impl From<Id<RenderGraphTexture>> for GraphResourceId {
    fn from(id: Id<RenderGraphTexture>) -> (r: GraphResourceId) {
        GraphResourceId::Texture(id)
    }
}

impl vstd::std_specs::convert::FromSpecImpl<Id<RenderGraphTexture>> for GraphResourceId {
    open spec fn obeys_from_spec() -> bool {
        true
    }

    open spec fn from_spec(id: Id<RenderGraphTexture>) -> GraphResourceId {
        GraphResourceId::Texture(id)
    }
}

impl From<Id<RenderGraphBuffer>> for GraphResourceId {
    fn from(id: Id<RenderGraphBuffer>) -> (r: GraphResourceId) {
        GraphResourceId::Buffer(id)
    }
}

impl vstd::std_specs::convert::FromSpecImpl<Id<RenderGraphBuffer>> for GraphResourceId {
    open spec fn obeys_from_spec() -> bool {
        true
    }

    open spec fn from_spec(id: Id<RenderGraphBuffer>) -> GraphResourceId {
        GraphResourceId::Buffer(id)
    }
}

/// A kind of render-graph resource: it names its resources by id.
pub trait GraphResource: Sized {
    /// The kind of resource this is.
    spec fn kind() -> ResourceKind;

    /// The id of the resource of this kind named `value`.
    fn id(value: &str) -> (r: GraphResourceId)
        ensures
            resource_kind(r) == Self::kind(),
            resource_hash(r) == name_crc32(value@),
    ;
}

/// What a render-graph texture is created with.
#[derive(Clone, Copy, PartialEq, Eq, Structural, Debug)]
pub struct TextureDesc {
    pub format: TextureFormat,
    pub usages: TextureUsages,
}

/// A render-graph texture: the texture and the view of it that passes use.
#[derive(Clone, Copy, PartialEq, Eq, Structural, Debug)]
pub struct RenderGraphTexture {
    pub texture: u64,
    pub view: u64,
}

/// The descriptor of a render-graph texture of `width` by `height`.
pub open spec fn graph_texture_descriptor(desc: TextureDesc, width: u32, height: u32) -> TextureDescriptor {
    TextureDescriptor {
        label: None,
        width,
        height,
        depth_or_array_layers: 1,
        mip_level_count: 1,
        sample_count: 1,
        dimension: StorageDimension::D2,
        format: desc.format,
        view_format: Some(desc.format),
        usage: desc.usages,
    }
}

impl RenderGraphTexture {
    /// Creates a single-level 2D texture of `width` by `height` and a view of it.
    pub fn create(device: &mut RenderDevice, desc: &TextureDesc, width: u32, height: u32) -> (r:
        RenderGraphTexture)
        requires
            old(device)@.next_id + 1 < u64::MAX,
        ensures
            r.texture == old(device)@.next_id,
            r.view == old(device)@.next_id + 1,
            final(device)@.next_id == old(device)@.next_id + 2,
            final(device)@.limits == old(device)@.limits,
            final(device)@.commands == old(device)@.commands.push(
                DeviceCommand::CreateTexture { id: r.texture, desc: graph_texture_descriptor(*desc, width, height) },
            ).push(DeviceCommand::CreateTextureView { id: r.view, texture: r.texture }),
    {
        let texture = device.allocate_id();
        device.submit(
            DeviceCommand::CreateTexture {
                id: texture,
                desc: TextureDescriptor {
                    label: None,
                    width,
                    height,
                    depth_or_array_layers: 1,
                    mip_level_count: 1,
                    sample_count: 1,
                    dimension: StorageDimension::D2,
                    format: desc.format,
                    view_format: Some(desc.format),
                    usage: desc.usages,
                },
            },
        );
        let view = device.allocate_id();
        device.submit(DeviceCommand::CreateTextureView { id: view, texture });
        RenderGraphTexture { texture, view }
    }
}

impl GraphResource for RenderGraphTexture {
    open spec fn kind() -> ResourceKind {
        ResourceKind::Texture
    }

    fn id(value: &str) -> (r: GraphResourceId) {
        GraphResourceId::Texture(Id::new(value))
    }
}

/// What a render-graph buffer is created with.
#[derive(Clone, Copy, PartialEq, Eq, Structural, Debug)]
pub struct BufferDesc {
    pub usage: BufferUsages,
    pub size: u64,
}

/// A render-graph buffer.
pub struct RenderGraphBuffer {
    pub buffer: Buffer,
}

impl RenderGraphBuffer {
    /// Creates an unlabelled, uninitialised buffer as `desc` describes.
    pub fn create(device: &mut RenderDevice, desc: &BufferDesc) -> (r: RenderGraphBuffer)
        requires
            old(device)@.next_id < u64::MAX,
        ensures
            r.buffer@ == (BufferView { id: old(device)@.next_id, label: None, size: desc.size, usage: desc.usage }),
            crate::buffer::allocated_one(old(device)@, final(device)@),
            crate::buffer::create_command_matches(final(device)@.commands.last(), r.buffer@, None),
    {
        RenderGraphBuffer { buffer: Buffer::new(device, desc.size, desc.usage, None) }
    }
}

impl GraphResource for RenderGraphBuffer {
    open spec fn kind() -> ResourceKind {
        ResourceKind::Buffer
    }

    fn id(value: &str) -> (r: GraphResourceId) {
        GraphResourceId::Buffer(Id::new(value))
    }
}

/// In a sequence without repeats, `k` is found at its one position.
pub proof fn lemma_index_of_unique(keys: Seq<u32>, i: int)
    requires
        keys.no_duplicates(),
        0 <= i < keys.len(),
    ensures
        keys.index_of(keys[i]) == i,
{
    let j = keys.index_of(keys[i]);
    assert(keys.contains(keys[i]));
    assert(0 <= j < keys.len() && keys[j] == keys[i]);
}

/// The position of `k` in `keys`.
fn position_of(keys: &Vec<u32>, k: u32) -> (r: Option<usize>)
    ensures
        match r {
            Some(i) => i < keys@.len() && keys@[i as int] == k,
            None => !keys@.contains(k),
        },
{
    let mut i: usize = 0;
    while i < keys.len()
        invariant
            0 <= i <= keys@.len(),
            forall|j: int| 0 <= j < i ==> keys@[j] != k,
        decreases keys.len() - i,
    {
        if keys[i] == k {
            return Some(i);
        }
        i = i + 1;
    }
    None
}

/// A map from resource ids to values, kept in insertion order.
pub struct IdMap<V> {
    keys: Vec<u32>,
    values: Vec<V>,
}

impl<V> View for IdMap<V> {
    type V = Map<u32, V>;

    closed spec fn view(&self) -> Map<u32, V> {
        Map::new(|k: u32| self.keys@.contains(k), |k: u32| self.values@[self.keys@.index_of(k)])
    }
}

impl<V> IdMap<V> {
    #[verifier::type_invariant]
    spec fn inv(&self) -> bool {
        &&& self.keys@.len() == self.values@.len()
        &&& self.keys@.no_duplicates()
    }

    /// The ids in insertion order.
    pub closed spec fn key_seq(&self) -> Seq<u32> {
        self.keys@
    }

    /// The ids are exactly the keys of the map.
    pub proof fn lemma_key_seq(&self)
        ensures
            forall|k: u32| self@.contains_key(k) <==> self.key_seq().contains(k),
    {
    }

    pub fn new() -> (r: IdMap<V>)
        ensures
            r@ == Map::<u32, V>::empty(),
            r.key_seq() == Seq::<u32>::empty(),
    {
        let r = IdMap { keys: Vec::new(), values: Vec::new() };
        assert(r@ =~= Map::<u32, V>::empty());
        r
    }

    fn find(&self, k: u32) -> (r: Option<usize>)
        ensures
            match r {
                Some(i) => i < self.keys@.len() && self.keys@[i as int] == k,
                None => !self.keys@.contains(k),
            },
    {
        position_of(&self.keys, k)
    }

    pub fn contains_key(&self, k: u32) -> (r: bool)
        ensures
            r == self@.contains_key(k),
    {
        self.find(k).is_some()
    }

    /// The number of entries; no id occurs twice.
    pub fn len(&self) -> (r: usize)
        ensures
            r == self.key_seq().len(),
            self.key_seq().no_duplicates(),
    {
        proof {
            use_type_invariant(self);
        }
        self.keys.len()
    }

    /// The id of the `i`-th entry.
    pub fn key_at(&self, i: usize) -> (r: u32)
        requires
            i < self.key_seq().len(),
        ensures
            r == self.key_seq()[i as int],
    {
        self.keys[i]
    }

    pub fn get(&self, k: u32) -> (r: Option<&V>)
        ensures
            match r {
                Some(v) => self@.contains_key(k) && *v == self@[k],
                None => !self@.contains_key(k),
            },
    {
        proof {
            use_type_invariant(self);
        }
        match self.find(k) {
            Some(i) => {
                proof {
                    lemma_index_of_unique(self.keys@, i as int);
                }
                Some(&self.values[i])
            },
            None => None,
        }
    }

    /// Maps `k` to `v`; a new id goes last, a known one keeps its place.
    pub fn insert(&mut self, k: u32, v: V)
        ensures
            final(self)@ == old(self)@.insert(k, v),
            old(self)@.contains_key(k) ==> final(self).key_seq() == old(self).key_seq(),
            !old(self)@.contains_key(k) ==> final(self).key_seq() == old(self).key_seq().push(k),
    {
        proof {
            use_type_invariant(&*self);
        }
        let mut taken = IdMap { keys: Vec::new(), values: Vec::new() };
        std::mem::swap(&mut taken, self);
        let IdMap { mut keys, mut values } = taken;
        let ghost ok = keys@;
        let ghost ov = values@;
        let pos = position_of(&keys, k);
        let found = pos.is_some();
        let i: usize = match pos {
            Some(p) => p,
            None => 0,
        };
        if found {
            values.set(i, v);
        } else {
            keys.push(k);
            values.push(v);
        }
        proof {
            let m = Map::new(|x: u32| keys@.contains(x), |x: u32| values@[keys@.index_of(x)]);
            let om = Map::new(|x: u32| ok.contains(x), |x: u32| ov[ok.index_of(x)]);
            assert(keys@.no_duplicates()) by {
                if !found {
                    assert forall|a: int, b: int| 0 <= a < b < keys@.len() implies keys@[a] != keys@[b] by {
                        if b == ok.len() {
                            assert(keys@[a] == ok[a]);
                        }
                    }
                }
            }
            assert forall|x: u32| #[trigger] m.contains_key(x) implies om.insert(k, v).contains_key(x) && m[x] == om.insert(
                k,
                v,
            )[x] by {
                let j = keys@.index_of(x);
                assert(0 <= j < keys@.len() && keys@[j] == x);
                lemma_index_of_unique(keys@, j);
                if x != k {
                    assert(j < ok.len() && ok[j] == x);
                    lemma_index_of_unique(ok, j);
                }
            }
            assert forall|x: u32| om.insert(k, v).contains_key(x) implies #[trigger] m.contains_key(x) by {
                if x != k {
                    let j = ok.index_of(x);
                    assert(keys@[j] == x);
                } else if !found {
                    assert(keys@[ok.len() as int] == x);
                } else {
                    assert(keys@[i as int] == x);
                }
            }
            assert(m =~= om.insert(k, v));
        }
        *self = IdMap { keys, values };
    }

    /// Drops the entry of `k`, if there is one; the others keep their order.
    pub fn remove(&mut self, k: u32)
        ensures
            final(self)@ == old(self)@.remove(k),
            forall|x: u32| final(self).key_seq().contains(x) <==> (old(self).key_seq().contains(x) && x != k),
    {
        proof {
            use_type_invariant(&*self);
        }
        match self.find(k) {
            Some(i) => {
                let mut taken = IdMap { keys: Vec::new(), values: Vec::new() };
                std::mem::swap(&mut taken, self);
                let IdMap { mut keys, mut values } = taken;
                let ghost ok = keys@;
                let ghost ov = values@;
                keys.remove(i);
                values.remove(i);
                proof {
                    assert(keys@.no_duplicates()) by {
                        assert forall|a: int, b: int| 0 <= a < b < keys@.len() implies keys@[a] != keys@[b] by {
                            let oa = if a < i { a } else { a + 1 };
                            let ob = if b < i { b } else { b + 1 };
                            assert(keys@[a] == ok[oa] && keys@[b] == ok[ob]);
                        }
                    }
                    let m = Map::new(|x: u32| keys@.contains(x), |x: u32| values@[keys@.index_of(x)]);
                    let om = Map::new(|x: u32| ok.contains(x), |x: u32| ov[ok.index_of(x)]);
                    assert forall|x: u32| #[trigger] m.contains_key(x) implies om.remove(k).contains_key(x) && m[x]
                        == om.remove(k)[x] by {
                        let j = keys@.index_of(x);
                        assert(0 <= j < keys@.len() && keys@[j] == x);
                        lemma_index_of_unique(keys@, j);
                        let oj = if j < i { j } else { j + 1 };
                        assert(ok[oj] == x);
                        lemma_index_of_unique(ok, oj);
                    }
                    assert forall|x: u32| om.remove(k).contains_key(x) implies #[trigger] m.contains_key(x) by {
                        let j = ok.index_of(x);
                        assert(0 <= j < ok.len() && ok[j] == x);
                        if j < i {
                            assert(keys@[j] == x);
                        } else {
                            assert(j != i);
                            assert(keys@[j - 1] == x);
                        }
                    }
                    assert(m =~= om.remove(k));
                    assert forall|x: u32| keys@.contains(x) <==> (ok.contains(x) && x != k) by {
                        if ok.contains(x) && x != k {
                            assert(om.remove(k).contains_key(x));
                        }
                        if keys@.contains(x) {
                            assert(m.contains_key(x));
                        }
                    }
                }
                *self = IdMap { keys, values };
            },
            None => {
                proof {
                    assert(self@ =~= old(self)@.remove(k));
                }
            },
        }
    }
}

/// Covering the first `i` ids and then adding the `i`-th covers the first `i + 1`.
proof fn lemma_cover_step<V>(before: Map<u32, V>, after: Map<u32, V>, base: Map<u32, V>, keys: Seq<u32>, i: int)
    requires
        0 <= i < keys.len(),
        forall|k: u32|
            before.contains_key(k) <==> (base.contains_key(k) || exists|j: int| 0 <= j < i && #[trigger] keys[j] == k),
        after.dom() == before.dom().insert(keys[i]),
    ensures
        forall|k: u32|
            after.contains_key(k) <==> (base.contains_key(k) || exists|j: int|
                0 <= j < i + 1 && #[trigger] keys[j] == k),
{
    assert forall|k: u32|
        after.contains_key(k) <==> (base.contains_key(k) || exists|j: int| 0 <= j < i + 1 && #[trigger] keys[j] == k) by {
        if k == keys[i] {
            assert(after.dom().contains(k));
        } else {
            assert(after.contains_key(k) == before.contains_key(k));
            if before.contains_key(k) && !base.contains_key(k) {
                let j = choose|j: int| 0 <= j < i && #[trigger] keys[j] == k;
                assert(0 <= j < i + 1 && keys[j] == k);
            }
            if exists|j: int| 0 <= j < i + 1 && #[trigger] keys[j] == k {
                let j = choose|j: int| 0 <= j < i + 1 && #[trigger] keys[j] == k;
                assert(j != i);
                assert(exists|j2: int| 0 <= j2 < i && #[trigger] keys[j2] == k);
            }
        }
    }
}

/// Covering all ids of `keys` is covering the ids of `descs`.
proof fn lemma_cover_all<V, D>(m: Map<u32, V>, base: Map<u32, V>, descs: Map<u32, D>, keys: Seq<u32>)
    requires
        forall|k: u32|
            m.contains_key(k) <==> (base.contains_key(k) || exists|j: int| 0 <= j < keys.len() && #[trigger] keys[j] == k),
        forall|k: u32| descs.contains_key(k) <==> keys.contains(k),
    ensures
        forall|k: u32| m.contains_key(k) <==> (base.contains_key(k) || descs.contains_key(k)),
{
    assert forall|k: u32| m.contains_key(k) <==> (base.contains_key(k) || descs.contains_key(k)) by {
        if descs.contains_key(k) {
            assert(keys.contains(k));
            let j = choose|j: int| 0 <= j < keys.len() && keys[j] == k;
            assert(0 <= j < keys.len() && keys[j] == k);
        }
        if m.contains_key(k) && !base.contains_key(k) {
            let j = choose|j: int| 0 <= j < keys.len() && #[trigger] keys[j] == k;
            assert(keys.contains(k));
        }
    }
}

/// The abstract state of the resources of a render graph.
pub struct GraphResourcesView {
    pub width: u32,
    pub height: u32,
    pub texture_descs: Map<u32, TextureDesc>,
    pub buffer_descs: Map<u32, BufferDesc>,
    pub textures: Map<u32, RenderGraphTexture>,
    pub buffers: Map<u32, RenderGraphBuffer>,
}

/// The textures and buffers of a render graph, by name checksum: those
/// described (created by the graph) and those that exist.
pub struct GraphResources {
    width: u32,
    height: u32,
    texture_descs: IdMap<TextureDesc>,
    buffer_descs: IdMap<BufferDesc>,
    textures: IdMap<RenderGraphTexture>,
    buffers: IdMap<RenderGraphBuffer>,
}

impl View for GraphResources {
    type V = GraphResourcesView;

    closed spec fn view(&self) -> GraphResourcesView {
        GraphResourcesView {
            width: self.width,
            height: self.height,
            texture_descs: self.texture_descs@,
            buffer_descs: self.buffer_descs@,
            textures: self.textures@,
            buffers: self.buffers@,
        }
    }
}

/// The larger of two sizes.
pub open spec fn max_u32(a: u32, b: u32) -> u32 {
    if a >= b {
        a
    } else {
        b
    }
}

/// The device grew by appending commands only.
pub open spec fn device_grew(before: crate::device::DeviceView, after: crate::device::DeviceView) -> bool {
    &&& after.limits == before.limits
    &&& after.next_id >= before.next_id
    &&& after.commands.len() >= before.commands.len()
    &&& after.commands.subrange(0, before.commands.len() as int) == before.commands
}

/// `t` is a texture created, during the growth from `before` to `after`, as
/// `desc` describes at `width` by `height`.
pub open spec fn texture_created(
    t: RenderGraphTexture,
    desc: TextureDesc,
    width: u32,
    height: u32,
    before: crate::device::DeviceView,
    after: crate::device::DeviceView,
) -> bool {
    &&& before.next_id <= t.texture < after.next_id
    &&& before.next_id <= t.view < after.next_id
    &&& after.commands.contains(
        DeviceCommand::CreateTexture { id: t.texture, desc: graph_texture_descriptor(desc, width, height) },
    )
    &&& after.commands.contains(DeviceCommand::CreateTextureView { id: t.view, texture: t.texture })
}

/// `b` is a buffer created, during the growth from `before` to `after`, as
/// `desc` describes.
pub open spec fn buffer_created(
    b: RenderGraphBuffer,
    desc: BufferDesc,
    before: crate::device::DeviceView,
    after: crate::device::DeviceView,
) -> bool {
    &&& before.next_id <= b.buffer@.id < after.next_id
    &&& b.buffer@ == (BufferView { id: b.buffer@.id, label: None, size: desc.size, usage: desc.usage })
    &&& after.commands.contains(
        DeviceCommand::CreateBuffer { id: b.buffer@.id, size: desc.size, usage: desc.usage, label: None, contents: None },
    )
}

impl GraphResources {
    /// How many textures are described.
    pub closed spec fn texture_desc_count(&self) -> nat {
        self.texture_descs.key_seq().len()
    }

    /// How many buffers are described.
    pub closed spec fn buffer_desc_count(&self) -> nat {
        self.buffer_descs.key_seq().len()
    }

    /// No resource, and a size of zero.
    pub fn new() -> (r: GraphResources)
        ensures
            r@ == (GraphResourcesView {
                width: 0,
                height: 0,
                texture_descs: Map::empty(),
                buffer_descs: Map::empty(),
                textures: Map::empty(),
                buffers: Map::empty(),
            }),
    {
        GraphResources {
            width: 0,
            height: 0,
            texture_descs: IdMap::new(),
            buffer_descs: IdMap::new(),
            textures: IdMap::new(),
            buffers: IdMap::new(),
        }
    }

    /// The size the graph's textures are created at.
    pub fn size(&self) -> (r: (u32, u32))
        ensures
            r == (self@.width, self@.height),
    {
        (self.width, self.height)
    }

    /// Describes the texture named `name`; it is created when the graph grows.
    pub fn create_texture(&mut self, name: &str, desc: TextureDesc) -> (r: Id<RenderGraphTexture>)
        ensures
            r.spec_id() == name_crc32(name@),
            final(self)@ == (GraphResourcesView {
                texture_descs: old(self)@.texture_descs.insert(r.spec_id(), desc),
                ..old(self)@
            }),
    {
        let handle: Id<RenderGraphTexture> = Id::new(name);
        self.texture_descs.insert(handle.id(), desc);
        handle
    }

    /// Describes the buffer named `name`; it is created when the graph is built.
    pub fn create_buffer(&mut self, name: &str, desc: BufferDesc) -> (r: Id<RenderGraphBuffer>)
        ensures
            r.spec_id() == name_crc32(name@),
            final(self)@ == (GraphResourcesView {
                buffer_descs: old(self)@.buffer_descs.insert(r.spec_id(), desc),
                ..old(self)@
            }),
    {
        let handle: Id<RenderGraphBuffer> = Id::new(name);
        self.buffer_descs.insert(handle.id(), desc);
        handle
    }

    /// Adds an existing texture under `name`.
    pub fn import_texture(&mut self, name: &str, texture: RenderGraphTexture) -> (r: Id<RenderGraphTexture>)
        ensures
            r.spec_id() == name_crc32(name@),
            final(self)@ == (GraphResourcesView {
                textures: old(self)@.textures.insert(r.spec_id(), texture),
                ..old(self)@
            }),
    {
        let handle: Id<RenderGraphTexture> = Id::new(name);
        self.textures.insert(handle.id(), texture);
        handle
    }

    /// Adds an existing buffer under `name`.
    pub fn import_buffer(&mut self, name: &str, buffer: RenderGraphBuffer) -> (r: Id<RenderGraphBuffer>)
        ensures
            r.spec_id() == name_crc32(name@),
            final(self)@ == (GraphResourcesView {
                buffers: old(self)@.buffers.insert(r.spec_id(), buffer),
                ..old(self)@
            }),
    {
        let handle: Id<RenderGraphBuffer> = Id::new(name);
        self.buffers.insert(handle.id(), buffer);
        handle
    }

    /// Forgets the texture `handle` (its description stays).
    pub fn remove_texture(&mut self, handle: Id<RenderGraphTexture>)
        ensures
            final(self)@ == (GraphResourcesView {
                textures: old(self)@.textures.remove(handle.spec_id()),
                ..old(self)@
            }),
    {
        self.textures.remove(handle.id());
    }

    /// Forgets the buffer `handle` (its description stays).
    pub fn remove_buffer(&mut self, handle: Id<RenderGraphBuffer>)
        ensures
            final(self)@ == (GraphResourcesView {
                buffers: old(self)@.buffers.remove(handle.spec_id()),
                ..old(self)@
            }),
    {
        self.buffers.remove(handle.id());
    }

    pub fn texture(&self, handle: &Id<RenderGraphTexture>) -> (r: Option<&RenderGraphTexture>)
        ensures
            match r {
                Some(t) => self@.textures.contains_key(handle.spec_id()) && *t == self@.textures[handle.spec_id()],
                None => !self@.textures.contains_key(handle.spec_id()),
            },
    {
        self.textures.get(handle.id())
    }

    pub fn buffer(&self, handle: &Id<RenderGraphBuffer>) -> (r: Option<&RenderGraphBuffer>)
        ensures
            match r {
                Some(b) => self@.buffers.contains_key(handle.spec_id()) && *b == self@.buffers[handle.spec_id()],
                None => !self@.buffers.contains_key(handle.spec_id()),
            },
    {
        self.buffers.get(handle.id())
    }

    /// Grows the size to cover `width` by `height`. When it grew, every
    /// described texture that does not exist yet is created at the new size;
    /// textures that exist are kept as they are.
    pub fn resize(&mut self, device: &mut RenderDevice, width: u32, height: u32)
        requires
            old(device)@.next_id + 2 * old(self).texture_desc_count() < u64::MAX,
        ensures
            final(self)@.width == max_u32(old(self)@.width, width),
            final(self)@.height == max_u32(old(self)@.height, height),
            final(self)@.texture_descs == old(self)@.texture_descs,
            final(self)@.buffer_descs == old(self)@.buffer_descs,
            final(self)@.buffers == old(self)@.buffers,
            device_grew(old(device)@, final(device)@),
            (width <= old(self)@.width && height <= old(self)@.height) ==> final(self)@.textures == old(
                self,
            )@.textures && final(device)@ == old(device)@,
            (width > old(self)@.width || height > old(self)@.height) ==> {
                &&& forall|k: u32|
                    final(self)@.textures.contains_key(k) <==> (old(self)@.textures.contains_key(k)
                        || old(self)@.texture_descs.contains_key(k))
                &&& forall|k: u32|
                    old(self)@.textures.contains_key(k) ==> final(self)@.textures[k] == old(self)@.textures[k]
                &&& forall|k: u32|
                    !old(self)@.textures.contains_key(k) && old(self)@.texture_descs.contains_key(k)
                        ==> texture_created(
                        #[trigger] final(self)@.textures[k],
                        old(self)@.texture_descs[k],
                        final(self)@.width,
                        final(self)@.height,
                        old(device)@,
                        final(device)@,
                    )
            },
    {
        proof {
            assert(old(device)@.commands.subrange(0, old(device)@.commands.len() as int) =~= old(device)@.commands);
        }
        let new_width = if width > self.width { width } else { self.width };
        let new_height = if height > self.height { height } else { self.height };
        if new_width > self.width || new_height > self.height {
            self.width = new_width;
            self.height = new_height;
            let n = self.texture_descs.len();
            let ghost d0 = device@;
            let ghost t0 = self.textures@;
            let ghost keys = self.texture_descs.key_seq();
            proof {
                assert(d0.commands.subrange(0, d0.commands.len() as int) =~= d0.commands);
                self.texture_descs.lemma_key_seq();
            }
            let mut i: usize = 0;
            while i < n
                invariant
                    n == keys.len(),
                    keys == self.texture_descs.key_seq(),
                    keys.no_duplicates(),
                    self.texture_descs@ == old(self)@.texture_descs,
                    self.width == new_width,
                    self.height == new_height,
                    0 <= i <= n,
                    device_grew(d0, device@),
                    device@.next_id + 2 * (n - i) < u64::MAX,
                    forall|k: u32| self.texture_descs@.contains_key(k) <==> keys.contains(k),
                    forall|k: u32|
                        self.textures@.contains_key(k) <==> (t0.contains_key(k) || exists|j: int|
                            0 <= j < i && #[trigger] keys[j] == k),
                    forall|k: u32| t0.contains_key(k) ==> self.textures@[k] == t0[k],
                    forall|k: u32|
                        !t0.contains_key(k) && self.textures@.contains_key(k) ==> texture_created(
                            #[trigger] self.textures@[k],
                            self.texture_descs@[k],
                            new_width,
                            new_height,
                            d0,
                            device@,
                        ),
                    self.buffers@ == old(self)@.buffers,
                    self.buffer_descs@ == old(self)@.buffer_descs,
                decreases n - i,
            {
                let ghost tex_start = self.textures@;
                let key = self.texture_descs.key_at(i);
                proof {
                    self.texture_descs.lemma_key_seq();
                    assert(keys.contains(key));
                }
                if !self.textures.contains_key(key) {
                    let desc = match self.texture_descs.get(key) {
                        Some(d) => *d,
                        None => {
                            proof {
                                assert(false);
                            }
                            return;
                        },
                    };
                    let ghost d1 = device@;
                    let texture = RenderGraphTexture::create(device, &desc, new_width, new_height);
                    proof {
                        let cmds = device@.commands;
                        assert(cmds.subrange(0, d0.commands.len() as int) =~= d0.commands) by {
                            assert(d1.commands.subrange(0, d0.commands.len() as int) == d0.commands);
                        }
                        assert(cmds[cmds.len() - 2] == DeviceCommand::CreateTexture {
                            id: texture.texture,
                            desc: graph_texture_descriptor(desc, new_width, new_height),
                        });
                        assert(cmds[cmds.len() - 1] == DeviceCommand::CreateTextureView {
                            id: texture.view,
                            texture: texture.texture,
                        });
                        assert forall|c: DeviceCommand| d1.commands.contains(c) implies cmds.contains(c) by {
                            let j = choose|j: int| 0 <= j < d1.commands.len() && d1.commands[j] == c;
                            assert(cmds[j] == c);
                        }
                    }
                    self.textures.insert(key, texture);
                    proof {
                        assert forall|k: u32|
                            !t0.contains_key(k) && self.textures@.contains_key(k) implies texture_created(
                            #[trigger] self.textures@[k],
                            self.texture_descs@[k],
                            new_width,
                            new_height,
                            d0,
                            device@,
                        ) by {
                            if k != key {
                                let t = self.textures@[k];
                                assert(d1.commands.contains(
                                    DeviceCommand::CreateTexture {
                                        id: t.texture,
                                        desc: graph_texture_descriptor(self.texture_descs@[k], new_width, new_height),
                                    },
                                ));
                                assert(d1.commands.contains(
                                    DeviceCommand::CreateTextureView { id: t.view, texture: t.texture },
                                ));
                            } else {
                                let cmds = device@.commands;
                                assert(cmds.contains(
                                    DeviceCommand::CreateTexture {
                                        id: texture.texture,
                                        desc: graph_texture_descriptor(desc, new_width, new_height),
                                    },
                                )) by {
                                    assert(cmds[cmds.len() - 2] == DeviceCommand::CreateTexture {
                                        id: texture.texture,
                                        desc: graph_texture_descriptor(desc, new_width, new_height),
                                    });
                                }
                                assert(cmds.contains(
                                    DeviceCommand::CreateTextureView { id: texture.view, texture: texture.texture },
                                )) by {
                                    assert(cmds[cmds.len() - 1] == DeviceCommand::CreateTextureView {
                                        id: texture.view,
                                        texture: texture.texture,
                                    });
                                }
                            }
                        }
                    }
                }
                proof {
                    assert(self.textures@.dom() =~= tex_start.dom().insert(keys[i as int]));
                    lemma_cover_step(tex_start, self.textures@, t0, keys, i as int);
                }
                i = i + 1;
            }
            proof {
                lemma_cover_all(self.textures@, t0, self.texture_descs@, keys);
            }
        }
    }

    /// Creates every described buffer that does not exist yet.
    pub fn build(&mut self, device: &mut RenderDevice)
        requires
            old(device)@.next_id + old(self).buffer_desc_count() < u64::MAX,
        ensures
            final(self)@ == (GraphResourcesView { buffers: final(self)@.buffers, ..old(self)@ }),
            final(self).texture_desc_count() == old(self).texture_desc_count(),
            final(device)@.next_id <= old(device)@.next_id + old(self).buffer_desc_count(),
            device_grew(old(device)@, final(device)@),
            forall|k: u32|
                final(self)@.buffers.contains_key(k) <==> (old(self)@.buffers.contains_key(k)
                    || old(self)@.buffer_descs.contains_key(k)),
            forall|k: u32| old(self)@.buffers.contains_key(k) ==> final(self)@.buffers[k] == old(self)@.buffers[k],
            forall|k: u32|
                !old(self)@.buffers.contains_key(k) && old(self)@.buffer_descs.contains_key(k) ==> buffer_created(
                    #[trigger] final(self)@.buffers[k],
                    old(self)@.buffer_descs[k],
                    old(device)@,
                    final(device)@,
                ),
    {
        let n = self.buffer_descs.len();
        let ghost d0 = device@;
        let ghost b0 = self.buffers@;
        let ghost keys = self.buffer_descs.key_seq();
        proof {
            assert(d0.commands.subrange(0, d0.commands.len() as int) =~= d0.commands);
            self.buffer_descs.lemma_key_seq();
        }
        let mut i: usize = 0;
        while i < n
            invariant
                n == keys.len(),
                keys == self.buffer_descs.key_seq(),
                keys.no_duplicates(),
                self@ == (GraphResourcesView { buffers: self@.buffers, ..old(self)@ }),
                self.texture_desc_count() == old(self).texture_desc_count(),
                0 <= i <= n,
                device@.next_id <= d0.next_id + i,
                device_grew(d0, device@),
                device@.next_id + (n - i) < u64::MAX,
                forall|k: u32| self.buffer_descs@.contains_key(k) <==> keys.contains(k),
                forall|k: u32|
                    self.buffers@.contains_key(k) <==> (b0.contains_key(k) || exists|j: int|
                        0 <= j < i && #[trigger] keys[j] == k),
                forall|k: u32| b0.contains_key(k) ==> self.buffers@[k] == b0[k],
                forall|k: u32|
                    !b0.contains_key(k) && self.buffers@.contains_key(k) ==> buffer_created(
                        #[trigger] self.buffers@[k],
                        self.buffer_descs@[k],
                        d0,
                        device@,
                    ),
            decreases n - i,
        {
            let ghost buf_start = self.buffers@;
            let key = self.buffer_descs.key_at(i);
            proof {
                self.buffer_descs.lemma_key_seq();
                assert(keys.contains(key));
            }
            if !self.buffers.contains_key(key) {
                let desc = match self.buffer_descs.get(key) {
                    Some(d) => *d,
                    None => {
                        proof {
                            assert(false);
                        }
                        return;
                    },
                };
                let ghost d1 = device@;
                let buffer = RenderGraphBuffer::create(device, &desc);
                proof {
                    let cmds = device@.commands;
                    assert(cmds.subrange(0, d0.commands.len() as int) =~= d0.commands) by {
                        assert(d1.commands.subrange(0, d0.commands.len() as int) == d0.commands);
                    }
                    assert forall|c: DeviceCommand| d1.commands.contains(c) implies cmds.contains(c) by {
                        let j = choose|j: int| 0 <= j < d1.commands.len() && d1.commands[j] == c;
                        assert(cmds[j] == c);
                    }
                    assert(cmds.contains(cmds.last()));
                }
                self.buffers.insert(key, buffer);
                proof {
                    assert forall|k: u32|
                        !b0.contains_key(k) && self.buffers@.contains_key(k) implies buffer_created(
                        #[trigger] self.buffers@[k],
                        self.buffer_descs@[k],
                        d0,
                        device@,
                    ) by {
                        if k != key {
                            let b = self.buffers@[k];
                            assert(d1.commands.contains(
                                DeviceCommand::CreateBuffer {
                                    id: b.buffer@.id,
                                    size: self.buffer_descs@[k].size,
                                    usage: self.buffer_descs@[k].usage,
                                    label: None,
                                    contents: None,
                                },
                            ));
                        }
                    }
                }
            }
            proof {
                assert(self.buffers@.dom() =~= buf_start.dom().insert(keys[i as int]));
                lemma_cover_step(buf_start, self.buffers@, b0, keys, i as int);
            }
            i = i + 1;
        }
        proof {
            lemma_cover_all(self.buffers@, b0, self.buffer_descs@, keys);
        }
    }
}

/// What `get` gives back after `insert`: the value just inserted under its
/// id, and for every other id what it had; after `remove` the id is gone.
pub proof fn lemma_id_map_get_after_insert<V>(m: Map<u32, V>, k: u32, v: V, other: u32)
    ensures
        m.insert(k, v).contains_key(k),
        m.insert(k, v)[k] == v,
        other != k ==> m.insert(k, v).contains_key(other) == m.contains_key(other),
        other != k && m.contains_key(other) ==> m.insert(k, v)[other] == m[other],
        !m.remove(k).contains_key(k),
        other != k ==> m.remove(k).contains_key(other) == m.contains_key(other),
{
}

} // verus!
