use crate::device::RenderDevice;
use crate::graph_resources::{
    buffer_created, device_grew, max_u32, name_crc32, same_resource, texture_created, BufferDesc, GraphResource,
    GraphResourceId, GraphResources, GraphResourcesView, Id, RenderGraphBuffer, RenderGraphTexture, TextureDesc,
};
use vstd::prelude::*;
use vstd::set_lib::*;

verus! {

/// The id of a render-graph node.
#[derive(Clone, Copy, PartialEq, Eq, Structural, Debug, Hash)]
pub struct NodeId(pub u64);

impl NodeId {
    pub fn new(id: u64) -> (r: NodeId)
        ensures
            r == NodeId(id),
    {
        NodeId(id)
    }
}

/// One end of an edge: a node reading or writing a resource.
pub enum EdgeSlot {
    Read { node: NodeId, resource: GraphResourceId },
    Write { node: NodeId, resource: GraphResourceId },
}

/// The node of a slot.
pub open spec fn slot_node(s: EdgeSlot) -> NodeId {
    match s {
        EdgeSlot::Read { node, .. } => node,
        EdgeSlot::Write { node, .. } => node,
    }
}

/// The resource of a slot.
pub open spec fn slot_resource(s: EdgeSlot) -> GraphResourceId {
    match s {
        EdgeSlot::Read { resource, .. } => resource,
        EdgeSlot::Write { resource, .. } => resource,
    }
}

impl EdgeSlot {
    /// The slot where `node` reads the resource of kind `R` named `resource`.
    pub fn read<R: GraphResource>(node: NodeId, resource: &str) -> (r: EdgeSlot)
        ensures
            r is Read,
            slot_node(r) == node,
            crate::graph_resources::resource_kind(slot_resource(r)) == R::kind(),
            crate::graph_resources::resource_hash(slot_resource(r)) == crate::graph_resources::name_crc32(
                resource@,
            ),
    {
        EdgeSlot::Read { node, resource: R::id(resource) }
    }

    /// The slot where `node` writes the resource of kind `R` named `resource`.
    pub fn write<R: GraphResource>(node: NodeId, resource: &str) -> (r: EdgeSlot)
        ensures
            r is Write,
            slot_node(r) == node,
            crate::graph_resources::resource_kind(slot_resource(r)) == R::kind(),
            crate::graph_resources::resource_hash(slot_resource(r)) == crate::graph_resources::name_crc32(
                resource@,
            ),
    {
        EdgeSlot::Write { node, resource: R::id(resource) }
    }

    fn node(&self) -> (r: NodeId)
        ensures
            r == slot_node(*self),
    {
        match self {
            EdgeSlot::Read { node, .. } => *node,
            EdgeSlot::Write { node, .. } => *node,
        }
    }

    fn resource(&self) -> (r: &GraphResourceId)
        ensures
            *r == slot_resource(*self),
    {
        match self {
            EdgeSlot::Read { resource, .. } => resource,
            EdgeSlot::Write { resource, .. } => resource,
        }
    }

    fn writes(&self) -> (r: bool)
        ensures
            r == (*self is Write),
    {
        match self {
            EdgeSlot::Read { .. } => false,
            EdgeSlot::Write { .. } => true,
        }
    }
}

/// An edge between two slots of the graph.
pub struct NodeEdge {
    pub from: EdgeSlot,
    pub to: EdgeSlot,
}

impl From<(EdgeSlot, EdgeSlot)> for NodeEdge {
    fn from(slots: (EdgeSlot, EdgeSlot)) -> (r: NodeEdge) {
        let (from, to) = slots;
        NodeEdge { from, to }
    }
}

impl vstd::std_specs::convert::FromSpecImpl<(EdgeSlot, EdgeSlot)> for NodeEdge {
    open spec fn obeys_from_spec() -> bool {
        true
    }

    open spec fn from_spec(slots: (EdgeSlot, EdgeSlot)) -> NodeEdge {
        NodeEdge { from: slots.0, to: slots.1 }
    }
}

/// Whether the edge orders its two nodes: one of its ends writes, and both
/// ends name the same resource. The node at `to` then runs after the node
/// at `from`.
pub open spec fn is_dependency(e: NodeEdge) -> bool {
    (e.from is Write || e.to is Write) && same_resource(slot_resource(e.from), slot_resource(e.to))
}

/// Whether an edge makes `n` depend on `d`.
pub open spec fn depends_on(edges: Seq<NodeEdge>, n: NodeId, d: NodeId) -> bool {
    exists|k: int|
        #![trigger edges[k]]
        0 <= k < edges.len() && is_dependency(edges[k]) && slot_node(edges[k].to) == n && slot_node(
            edges[k].from,
        ) == d
}

/// The nodes that depend on some node: the nodes that the graph orders.
pub open spec fn dependents(edges: Seq<NodeEdge>) -> Set<NodeId> {
    Set::new(
        |n: NodeId|
            exists|k: int|
                #![trigger edges[k]]
                0 <= k < edges.len() && is_dependency(edges[k]) && slot_node(edges[k].to) == n,
    )
}

/// The nodes of `rem` that depend on no node of `rem`.
pub open spec fn ready(edges: Seq<NodeEdge>, rem: Set<NodeId>) -> Set<NodeId> {
    rem.filter(|n: NodeId| forall|d: NodeId| #[trigger] depends_on(edges, n, d) ==> !rem.contains(d))
}

/// A finite set loses its ready nodes, when it has some.
pub proof fn lemma_ready_shrinks(edges: Seq<NodeEdge>, rem: Set<NodeId>)
    requires
        rem.finite(),
        ready(edges, rem).len() != 0,
    ensures
        ready(edges, rem).finite(),
        rem.difference(ready(edges, rem)).finite(),
        rem.difference(ready(edges, rem)).len() < rem.len(),
{
    let g = ready(edges, rem);
    rem.lemma_len_filter(|n: NodeId| forall|d: NodeId| #[trigger] depends_on(edges, n, d) ==> !rem.contains(d));
    lemma_set_empty_equivalency_len(g);
    let x = g.choose();
    assert(g.contains(x));
    lemma_set_difference_len(rem, g);
    assert(rem.intersect(g).contains(x));
    vstd::set::axiom_set_intersect_finite(rem, g);
    vstd::set::axiom_set_contains_len(rem.intersect(g), x);
    vstd::set::axiom_set_difference_finite(rem, g);
}

/// The layers in which the graph runs the nodes of `rem`: each layer holds
/// the nodes whose dependencies all ran in earlier layers. `None` when the
/// dependencies form a cycle.
pub open spec fn layers(edges: Seq<NodeEdge>, rem: Set<NodeId>) -> Option<Seq<Set<NodeId>>>
    decreases rem.len(),
    when rem.finite()
{
    if rem.len() == 0 {
        Some(Seq::empty())
    } else {
        let g = ready(edges, rem);
        if g.len() == 0 {
            None
        } else {
            proof {
                lemma_ready_shrinks(edges, rem);
            }
            match layers(edges, rem.difference(g)) {
                Some(rest) => Some(seq![g] + rest),
                None => None,
            }
        }
    }
}

/// The dependents are finitely many.
pub proof fn lemma_dependents_finite(edges: Seq<NodeEdge>)
    ensures
        dependents(edges).finite(),
{
    let targets = Seq::new(edges.len(), |k: int| slot_node(edges[k].to));
    assert forall|n: NodeId| dependents(edges).contains(n) implies targets.to_set().contains(n) by {
        let k = choose|k: int| 0 <= k < edges.len() && is_dependency(edges[k]) && slot_node(edges[k].to) == n;
        assert(targets[k] == n);
    }
    vstd::seq_lib::seq_to_set_is_finite(targets);
    lemma_set_subset_finite(targets.to_set(), dependents(edges));
}

/// Layers cover each node of `rem` exactly once, and none is empty.
pub proof fn lemma_layers_partition(edges: Seq<NodeEdge>, rem: Set<NodeId>)
    requires
        rem.finite(),
        layers(edges, rem) is Some,
    ensures
        forall|n: NodeId|
            rem.contains(n) <==> exists|k: int|
                0 <= k < layers(edges, rem).unwrap().len() && #[trigger] layers(edges, rem).unwrap()[k].contains(n),
        forall|k1: int, k2: int, n: NodeId|
            0 <= k1 < k2 < layers(edges, rem).unwrap().len() && #[trigger] layers(edges, rem).unwrap()[k1].contains(n)
                ==> !#[trigger] layers(edges, rem).unwrap()[k2].contains(n),
        forall|k: int|
            0 <= k < layers(edges, rem).unwrap().len() ==> #[trigger] layers(edges, rem).unwrap()[k].len() != 0,
    decreases rem.len(),
{
    if rem.len() == 0 {
        lemma_set_empty_equivalency_len(rem);
    } else {
        let g = ready(edges, rem);
        lemma_ready_shrinks(edges, rem);
        let rest_rem = rem.difference(g);
        lemma_layers_partition(edges, rest_rem);
        let rest = layers(edges, rest_rem).unwrap();
        let ls = layers(edges, rem).unwrap();
        assert(ls =~= seq![g] + rest);
        assert(ls[0] == g);
        assert forall|k: int| 0 <= k < rest.len() implies ls[k + 1] == rest[k] by {}
        assert forall|n: NodeId| rem.contains(n) implies exists|k: int| 0 <= k < ls.len() && #[trigger] ls[k].contains(
            n,
        ) by {
            if g.contains(n) {
                assert(ls[0].contains(n));
            } else {
                assert(rest_rem.contains(n));
                let k = choose|k: int| 0 <= k < rest.len() && #[trigger] rest[k].contains(n);
                assert(ls[k + 1].contains(n));
            }
        }
        assert forall|n: NodeId| (exists|k: int| 0 <= k < ls.len() && #[trigger] ls[k].contains(n)) implies rem.contains(
            n,
        ) by {
            let k = choose|k: int| 0 <= k < ls.len() && #[trigger] ls[k].contains(n);
            if k > 0 {
                assert(rest[k - 1].contains(n));
                assert(rest_rem.contains(n));
            } else {
                assert(g.contains(n));
            }
        }
        assert forall|k1: int, k2: int, n: NodeId|
            0 <= k1 < k2 < ls.len() && #[trigger] ls[k1].contains(n) implies !#[trigger] ls[k2].contains(n) by {
            if k1 == 0 {
                if ls[k2].contains(n) {
                    assert(rest[k2 - 1].contains(n));
                    assert(rest_rem.contains(n));
                }
            } else {
                assert(rest[k1 - 1].contains(n));
                if ls[k2].contains(n) {
                    assert(rest[k2 - 1].contains(n));
                }
            }
        }
        assert forall|k: int| 0 <= k < ls.len() implies #[trigger] ls[k].len() != 0 by {
            if k > 0 {
                assert(ls[k] == rest[k - 1]);
            }
        }
    }
}

/// A node of a layer depends only on nodes of earlier layers (or on nodes
/// outside `rem`).
pub proof fn lemma_layers_ordered(edges: Seq<NodeEdge>, rem: Set<NodeId>)
    requires
        rem.finite(),
        layers(edges, rem) is Some,
    ensures
        forall|k: int, n: NodeId, d: NodeId|
            0 <= k < layers(edges, rem).unwrap().len() && #[trigger] layers(edges, rem).unwrap()[k].contains(n)
                && #[trigger] depends_on(edges, n, d) && rem.contains(d) ==> exists|k2: int|
                0 <= k2 < k && #[trigger] layers(edges, rem).unwrap()[k2].contains(d),
    decreases rem.len(),
{
    if rem.len() != 0 {
        let g = ready(edges, rem);
        lemma_ready_shrinks(edges, rem);
        let rest_rem = rem.difference(g);
        lemma_layers_ordered(edges, rest_rem);
        let rest = layers(edges, rest_rem).unwrap();
        let ls = layers(edges, rem).unwrap();
        assert(ls =~= seq![g] + rest);
        assert forall|k: int, n: NodeId, d: NodeId|
            0 <= k < ls.len() && #[trigger] ls[k].contains(n) && #[trigger] depends_on(edges, n, d) && rem.contains(
                d,
            ) implies exists|k2: int| 0 <= k2 < k && #[trigger] ls[k2].contains(d) by {
            if k == 0 {
                assert(g.contains(n));
            } else {
                assert(rest[k - 1].contains(n));
                if g.contains(d) {
                    assert(ls[0].contains(d));
                } else {
                    assert(rest_rem.contains(d));
                    let k2 = choose|k2: int| 0 <= k2 < k - 1 && #[trigger] rest[k2].contains(d);
                    assert(ls[k2 + 1].contains(d));
                }
            }
        }
    }
}

/// The render graph runs every node that depends on another node exactly
/// once, in one of its layers, and no layer is empty.
pub proof fn lemma_order_runs_each_dependent_once(edges: Seq<NodeEdge>)
    requires
        layers(edges, dependents(edges)) is Some,
    ensures
        forall|n: NodeId|
            dependents(edges).contains(n) <==> exists|k: int|
                0 <= k < layers(edges, dependents(edges)).unwrap().len()
                    && #[trigger] layers(edges, dependents(edges)).unwrap()[k].contains(n),
        forall|k1: int, k2: int, n: NodeId|
            0 <= k1 < k2 < layers(edges, dependents(edges)).unwrap().len()
                && #[trigger] layers(edges, dependents(edges)).unwrap()[k1].contains(n) ==> !#[trigger] layers(
                edges,
                dependents(edges),
            ).unwrap()[k2].contains(n),
        forall|k: int|
            0 <= k < layers(edges, dependents(edges)).unwrap().len() ==> #[trigger] layers(
                edges,
                dependents(edges),
            ).unwrap()[k].len() != 0,
{
    lemma_dependents_finite(edges);
    lemma_layers_partition(edges, dependents(edges));
}

/// When a node reads or writes a resource that another node writes (or
/// reads what it writes) along an edge, it runs in a later layer.
pub proof fn lemma_order_respects_dependencies(edges: Seq<NodeEdge>, k: int, n: NodeId, d: NodeId)
    requires
        layers(edges, dependents(edges)) is Some,
        0 <= k < layers(edges, dependents(edges)).unwrap().len(),
        layers(edges, dependents(edges)).unwrap()[k].contains(n),
        depends_on(edges, n, d),
        dependents(edges).contains(d),
    ensures
        exists|k2: int| 0 <= k2 < k && #[trigger] layers(edges, dependents(edges)).unwrap()[k2].contains(d),
{
    lemma_dependents_finite(edges);
    lemma_layers_ordered(edges, dependents(edges));
}

/// The nodes of `keys` not yet marked `done`.
pub open spec fn rem_of(keys: Seq<NodeId>, done: Seq<bool>) -> Set<NodeId> {
    Set::new(|n: NodeId| exists|j: int| 0 <= j < keys.len() && !done[j] && #[trigger] keys[j] == n)
}

/// The nodes at the positions `idx` of `nodes`.
pub open spec fn layer_nodes(nodes: Seq<NodeId>, idx: Seq<usize>) -> Set<NodeId> {
    Set::new(|n: NodeId| exists|j: int| 0 <= j < idx.len() && #[trigger] nodes[idx[j] as int] == n)
}

/// `idx` names, without repeats, the positions in `nodes` of the nodes of `layer`.
pub open spec fn names_layer(nodes: Seq<NodeId>, idx: Seq<usize>, layer: Set<NodeId>) -> bool {
    &&& idx.no_duplicates()
    &&& forall|j: int| 0 <= j < idx.len() ==> #[trigger] idx[j] < nodes.len()
    &&& layer_nodes(nodes, idx) == layer
}

/// `acc` followed by the layers of `tail`, if there are any.
pub open spec fn append_layers(acc: Seq<Set<NodeId>>, tail: Option<Seq<Set<NodeId>>>) -> Option<
    Seq<Set<NodeId>>,
> {
    match tail {
        Some(t) => Some(acc + t),
        None => None,
    }
}

fn is_dependency_edge(e: &NodeEdge) -> (r: bool)
    ensures
        r == is_dependency(*e),
{
    (e.from.writes() || e.to.writes()) && e.from.resource().same(e.to.resource())
}

fn contains_node(v: &Vec<NodeId>, n: NodeId) -> (r: bool)
    ensures
        r == v@.contains(n),
{
    let mut i: usize = 0;
    while i < v.len()
        invariant
            0 <= i <= v.len(),
            forall|j: int| 0 <= j < i ==> v@[j] != n,
        decreases v.len() - i,
    {
        if v[i] == n {
            return true;
        }
        i = i + 1;
    }
    false
}

/// The position of `n` in `nodes`.
fn index_of_node(nodes: &[NodeId], n: NodeId) -> (r: Option<usize>)
    ensures
        match r {
            Some(i) => i < nodes@.len() && nodes@[i as int] == n,
            None => !nodes@.contains(n),
        },
{
    let mut i: usize = 0;
    while i < nodes.len()
        invariant
            0 <= i <= nodes.len(),
            forall|j: int| 0 <= j < i ==> nodes@[j] != n,
        decreases nodes.len() - i,
    {
        if nodes[i] == n {
            return Some(i);
        }
        i = i + 1;
    }
    None
}

/// The nodes that some edge makes depend on another, in the order in which
/// they first appear.
fn dependency_targets(edges: &[NodeEdge]) -> (keys: Vec<NodeId>)
    ensures
        keys@.no_duplicates(),
        forall|n: NodeId| keys@.contains(n) <==> dependents(edges@).contains(n),
{
    let mut keys: Vec<NodeId> = Vec::new();
    let mut k: usize = 0;
    while k < edges.len()
        invariant
            0 <= k <= edges.len(),
            keys@.no_duplicates(),
            forall|n: NodeId|
                keys@.contains(n) <==> exists|k2: int|
                    #![trigger edges@[k2]]
                    0 <= k2 < k && is_dependency(edges@[k2]) && slot_node(edges@[k2].to) == n,
        decreases edges.len() - k,
    {
        let ghost old_keys = keys@;
        let e = &edges[k];
        let dep = is_dependency_edge(e);
        let n = e.to.node();
        if dep {
            if !contains_node(&keys, n) {
                keys.push(n);
            }
        }
        proof {
            assert forall|m: NodeId| keys@.contains(m) <==> (old_keys.contains(m) || (dep && m == n)) by {
                if keys@.contains(m) && !old_keys.contains(m) {
                    let j = choose|j: int| 0 <= j < keys@.len() && keys@[j] == m;
                    assert(j == old_keys.len());
                }
                if old_keys.contains(m) {
                    let j = choose|j: int| 0 <= j < old_keys.len() && old_keys[j] == m;
                    assert(keys@[j] == m);
                }
                if dep && m == n && !old_keys.contains(m) {
                    assert(keys@[old_keys.len() as int] == m);
                }
            }
            assert forall|m: NodeId|
                keys@.contains(m) <==> exists|k2: int|
                    #![trigger edges@[k2]]
                    0 <= k2 < k + 1 && is_dependency(edges@[k2]) && slot_node(edges@[k2].to) == m by {
                if keys@.contains(m) {
                    if old_keys.contains(m) {
                        let k2 = choose|k2: int|
                            #![trigger edges@[k2]]
                            0 <= k2 < k && is_dependency(edges@[k2]) && slot_node(edges@[k2].to) == m;
                        assert(0 <= k2 < k + 1 && is_dependency(edges@[k2]) && slot_node(edges@[k2].to) == m);
                    } else {
                        assert(edges@[k as int] == *e);
                        assert(0 <= k < k + 1 && is_dependency(edges@[k as int]) && slot_node(edges@[k as int].to)
                            == m);
                    }
                }
                if exists|k2: int|
                    #![trigger edges@[k2]]
                    0 <= k2 < k + 1 && is_dependency(edges@[k2]) && slot_node(edges@[k2].to) == m {
                    let k2 = choose|k2: int|
                        #![trigger edges@[k2]]
                        0 <= k2 < k + 1 && is_dependency(edges@[k2]) && slot_node(edges@[k2].to) == m;
                    if k2 == k {
                        assert(edges@[k as int] == *e);
                    } else {
                        assert(old_keys.contains(m));
                    }
                }
            }
        }
        k = k + 1;
    }
    keys
}

/// Whether `n` is a key not yet marked done.
fn is_remaining(keys: &Vec<NodeId>, done: &Vec<bool>, n: NodeId) -> (r: bool)
    requires
        keys.len() == done.len(),
    ensures
        r == rem_of(keys@, done@).contains(n),
{
    let mut j: usize = 0;
    while j < keys.len()
        invariant
            keys.len() == done.len(),
            0 <= j <= keys.len(),
            forall|j2: int| 0 <= j2 < j ==> !(!done@[j2] && keys@[j2] == n),
        decreases keys.len() - j,
    {
        if !done[j] && keys[j] == n {
            assert(keys@[j as int] == n);
            return true;
        }
        j = j + 1;
    }
    false
}

/// Whether `n` depends on no node of `rem_of(keys, done)`.
fn depends_on_none(edges: &[NodeEdge], keys: &Vec<NodeId>, done: &Vec<bool>, n: NodeId) -> (r: bool)
    requires
        keys.len() == done.len(),
    ensures
        r == (forall|d: NodeId| #[trigger] depends_on(edges@, n, d) ==> !rem_of(keys@, done@).contains(d)),
{
    let ghost rem = rem_of(keys@, done@);
    let mut k: usize = 0;
    while k < edges.len()
        invariant
            keys.len() == done.len(),
            rem == rem_of(keys@, done@),
            0 <= k <= edges.len(),
            forall|k2: int|
                #![trigger edges@[k2]]
                0 <= k2 < k && is_dependency(edges@[k2]) && slot_node(edges@[k2].to) == n ==> !rem.contains(
                    slot_node(edges@[k2].from),
                ),
        decreases edges.len() - k,
    {
        let e = &edges[k];
        if is_dependency_edge(e) && e.to.node() == n {
            if is_remaining(keys, done, e.from.node()) {
                assert(depends_on(edges@, n, slot_node(edges@[k as int].from)));
                return false;
            }
        }
        k = k + 1;
    }
    proof {
        assert forall|d: NodeId| #[trigger] depends_on(edges@, n, d) implies !rem.contains(d) by {
            let k2 = choose|k2: int|
                #![trigger edges@[k2]]
                0 <= k2 < edges@.len() && is_dependency(edges@[k2]) && slot_node(edges@[k2].to) == n && slot_node(
                    edges@[k2].from,
                ) == d;
        }
    }
    true
}

/// Whether some key is not yet marked done.
fn any_remaining(done: &Vec<bool>) -> (r: bool)
    ensures
        r == exists|j: int| 0 <= j < done@.len() && !done@[j],
{
    let mut j: usize = 0;
    while j < done.len()
        invariant
            0 <= j <= done.len(),
            forall|j2: int| 0 <= j2 < j ==> done@[j2],
        decreases done.len() - j,
    {
        if !done[j] {
            return true;
        }
        j = j + 1;
    }
    false
}

/// The positions of the keys that are not done and depend on no key that
/// is not done.
fn ready_keys(edges: &[NodeEdge], keys: &Vec<NodeId>, done: &Vec<bool>) -> (group: Vec<usize>)
    requires
        keys.len() == done.len(),
    ensures
        group@.no_duplicates(),
        forall|t: int| 0 <= t < group@.len() ==> #[trigger] group@[t] < keys@.len() && !done@[group@[t] as int],
        layer_nodes(keys@, group@) == ready(edges@, rem_of(keys@, done@)),
{
    let ghost rem = rem_of(keys@, done@);
    let mut group: Vec<usize> = Vec::new();
    let mut i: usize = 0;
    while i < keys.len()
        invariant
            keys.len() == done.len(),
            rem == rem_of(keys@, done@),
            0 <= i <= keys.len(),
            group@.no_duplicates(),
            forall|t: int|
                0 <= t < group@.len() ==> #[trigger] group@[t] < i && !done@[group@[t] as int] && ready(
                    edges@,
                    rem,
                ).contains(keys@[group@[t] as int]),
            forall|j: int| 0 <= j < i && !done@[j] && ready(edges@, rem).contains(keys@[j]) ==> group@.contains(j as usize),
        decreases keys.len() - i,
    {
        if !done[i] {
            let n = keys[i];
            if depends_on_none(edges, keys, done, n) {
                proof {
                    assert(rem.contains(n)) by {
                        assert(keys@[i as int] == n);
                    }
                }
                let ghost old_group = group@;
                group.push(i);
                proof {
                    assert forall|t: int| 0 <= t < group@.len() implies #[trigger] group@[t] < i + 1 by {
                        if t < old_group.len() {
                            assert(group@[t] == old_group[t]);
                        }
                    }
                    assert forall|j: int|
                        0 <= j < i + 1 && !done@[j] && ready(edges@, rem).contains(keys@[j]) implies group@.contains(
                        j as usize,
                    ) by {
                        if j < i {
                            let t = choose|t: int| 0 <= t < old_group.len() && old_group[t] == j as usize;
                            assert(group@[t] == j as usize);
                        } else {
                            assert(group@[old_group.len() as int] == j as usize);
                        }
                    }
                }
            }
        }
        i = i + 1;
    }
    proof {
        let g = ready(edges@, rem);
        assert forall|n: NodeId| layer_nodes(keys@, group@).contains(n) <==> g.contains(n) by {
            if g.contains(n) {
                let j = choose|j: int| 0 <= j < keys@.len() && !done@[j] && #[trigger] keys@[j] == n;
                let t = choose|t: int| 0 <= t < group@.len() && group@[t] == j as usize;
                assert(keys@[group@[t] as int] == n);
            }
        }
        assert(layer_nodes(keys@, group@) =~= g);
    }
    group
}

/// The positions in `nodes` of the keys at the positions `group`.
fn node_positions(nodes: &[NodeId], keys: &Vec<NodeId>, group: &Vec<usize>) -> (r: Option<Vec<usize>>)
    requires
        nodes@.no_duplicates(),
        keys@.no_duplicates(),
        group@.no_duplicates(),
        forall|t: int| 0 <= t < group@.len() ==> #[trigger] group@[t] < keys@.len(),
    ensures
        match r {
            Some(out) => names_layer(nodes@, out@, layer_nodes(keys@, group@)),
            None => exists|t: int| 0 <= t < group@.len() && !nodes@.contains(keys@[#[trigger] group@[t] as int]),
        },
{
    let mut out: Vec<usize> = Vec::new();
    let mut t: usize = 0;
    while t < group.len()
        invariant
            nodes@.no_duplicates(),
            keys@.no_duplicates(),
            group@.no_duplicates(),
            forall|t2: int| 0 <= t2 < group@.len() ==> #[trigger] group@[t2] < keys@.len(),
            0 <= t <= group.len(),
            out@.len() == t,
            forall|t2: int|
                0 <= t2 < t ==> #[trigger] out@[t2] < nodes@.len() && nodes@[out@[t2] as int] == keys@[group@[t2] as int],
        decreases group.len() - t,
    {
        let key = keys[group[t]];
        match index_of_node(nodes, key) {
            Some(p) => {
                out.push(p);
            },
            None => {
                return None;
            },
        }
        t = t + 1;
    }
    proof {
        assert forall|a: int, b: int| 0 <= a < out@.len() && 0 <= b < out@.len() && a != b implies out@[a]
            != out@[b] by {
            if out@[a] == out@[b] {
                assert(keys@[group@[a] as int] == keys@[group@[b] as int]);
                assert(group@[a] == group@[b]);
            }
        }
        assert forall|n: NodeId| layer_nodes(nodes@, out@).contains(n) <==> layer_nodes(keys@, group@).contains(n) by {
            if layer_nodes(keys@, group@).contains(n) {
                let j = choose|j: int| 0 <= j < group@.len() && #[trigger] keys@[group@[j] as int] == n;
                assert(nodes@[out@[j] as int] == n);
            }
            if layer_nodes(nodes@, out@).contains(n) {
                let j = choose|j: int| 0 <= j < out@.len() && #[trigger] nodes@[out@[j] as int] == n;
                assert(keys@[group@[j] as int] == n);
            }
        }
        assert(layer_nodes(nodes@, out@) =~= layer_nodes(keys@, group@));
    }
    Some(out)
}

/// Whether position `j` is one of `group`.
pub open spec fn in_group(group: Seq<usize>, j: int) -> bool {
    exists|u: int| 0 <= u < group.len() && #[trigger] group[u] as int == j
}

/// Marks the positions `group` done.
fn mark_done(done: &mut Vec<bool>, group: &Vec<usize>)
    requires
        forall|t: int| 0 <= t < group@.len() ==> #[trigger] group@[t] < old(done)@.len(),
    ensures
        final(done)@.len() == old(done)@.len(),
        forall|j: int| 0 <= j < old(done)@.len() ==> #[trigger] final(done)@[j] == (old(done)@[j] || in_group(group@, j)),
{
    let ghost start = done@;
    let mut t: usize = 0;
    while t < group.len()
        invariant
            forall|t2: int| 0 <= t2 < group@.len() ==> #[trigger] group@[t2] < start.len(),
            0 <= t <= group.len(),
            done@.len() == start.len(),
            forall|j: int|
                0 <= j < start.len() ==> #[trigger] done@[j] == (start[j] || exists|u: int|
                    0 <= u < t && #[trigger] group@[u] as int == j),
        decreases group.len() - t,
    {
        let i = group[t];
        let ghost before = done@;
        done.set(i, true);
        proof {
            assert forall|j: int| 0 <= j < start.len() implies #[trigger] done@[j] == (start[j] || exists|u: int|
                0 <= u < t + 1 && #[trigger] group@[u] as int == j) by {
                if j == i {
                    assert(group@[t as int] as int == j);
                } else {
                    assert(done@[j] == before[j]);
                    if exists|u: int| 0 <= u < t && #[trigger] group@[u] as int == j {
                        let u = choose|u: int| 0 <= u < t && #[trigger] group@[u] as int == j;
                        assert(0 <= u < t + 1 && group@[u] as int == j);
                    }
                    if exists|u: int| 0 <= u < t + 1 && #[trigger] group@[u] as int == j {
                        let u = choose|u: int| 0 <= u < t + 1 && #[trigger] group@[u] as int == j;
                        assert(u != t);
                        assert(0 <= u < t && group@[u] as int == j);
                    }
                }
            }
        }
        t = t + 1;
    }
}

/// Marking the ready keys done removes them from the remaining nodes.
proof fn lemma_mark_removes(keys: Seq<NodeId>, done: Seq<bool>, done2: Seq<bool>, group: Seq<usize>)
    requires
        keys.no_duplicates(),
        done.len() == keys.len(),
        done2.len() == keys.len(),
        forall|t: int| 0 <= t < group.len() ==> #[trigger] group[t] < keys.len(),
        forall|j: int| 0 <= j < keys.len() ==> #[trigger] done2[j] == (done[j] || in_group(group, j)),
    ensures
        rem_of(keys, done2) == rem_of(keys, done).difference(layer_nodes(keys, group)),
{
    let g = layer_nodes(keys, group);
    assert forall|n: NodeId| rem_of(keys, done2).contains(n) <==> rem_of(keys, done).difference(g).contains(n) by {
        if rem_of(keys, done2).contains(n) {
            let j = choose|j: int| 0 <= j < keys.len() && !done2[j] && #[trigger] keys[j] == n;
            assert(!done[j]);
            if g.contains(n) {
                let t = choose|t: int| 0 <= t < group.len() && #[trigger] keys[group[t] as int] == n;
                assert(group[t] as int == j);
                assert(in_group(group, j));
            }
        }
        if rem_of(keys, done).difference(g).contains(n) {
            let j = choose|j: int| 0 <= j < keys.len() && !done[j] && #[trigger] keys[j] == n;
            if in_group(group, j) {
                let t = choose|t: int| 0 <= t < group.len() && #[trigger] group[t] as int == j;
                assert(keys[group[t] as int] == n);
            }
            assert(!done2[j]);
        }
    }
    assert(rem_of(keys, done2) =~= rem_of(keys, done).difference(g));
}

/// The order in which a render graph runs its nodes: layers of positions in
/// `nodes`, each layer running after the layers before it. Only nodes that
/// depend on another node are ordered. `None` when the dependencies form a
/// cycle or name a node that `nodes` lacks.
pub fn build_order(nodes: &[NodeId], edges: &[NodeEdge]) -> (r: Option<Vec<Vec<usize>>>)
    requires
        nodes@.no_duplicates(),
    ensures
        match r {
            Some(order) => layers(edges@, dependents(edges@)) matches Some(ls) && order@.len() == ls.len()
                && forall|k: int| 0 <= k < ls.len() ==> names_layer(nodes@, #[trigger] order@[k]@, ls[k]),
            None => layers(edges@, dependents(edges@)) is None || exists|n: NodeId|
                dependents(edges@).contains(n) && !nodes@.contains(n),
        },
{
    let keys = dependency_targets(edges);
    let mut done: Vec<bool> = Vec::new();
    while done.len() < keys.len()
        invariant
            done.len() <= keys.len(),
            forall|j: int| 0 <= j < done@.len() ==> !done@[j],
        decreases keys.len() - done.len(),
    {
        done.push(false);
    }
    let ghost all = dependents(edges@);
    proof {
        assert forall|n: NodeId| rem_of(keys@, done@).contains(n) <==> all.contains(n) by {
            if all.contains(n) {
                assert(keys@.contains(n));
                let j = choose|j: int| 0 <= j < keys@.len() && keys@[j] == n;
                assert(!done@[j]);
            }
            if rem_of(keys@, done@).contains(n) {
                let j = choose|j: int| 0 <= j < keys@.len() && !done@[j] && #[trigger] keys@[j] == n;
                assert(keys@.contains(n));
            }
        }
        assert(rem_of(keys@, done@) =~= all);
        lemma_dependents_finite(edges@);
    }
    let ghost mut rem = all;
    let ghost mut acc: Seq<Set<NodeId>> = Seq::empty();
    proof {
        match layers(edges@, rem) {
            Some(t) => {
                assert(acc + t =~= t);
            },
            None => {},
        }
    }
    let mut order: Vec<Vec<usize>> = Vec::new();
    while any_remaining(&done)
        invariant
            nodes@.no_duplicates(),
            keys@.no_duplicates(),
            forall|n: NodeId| keys@.contains(n) <==> all.contains(n),
            all == dependents(edges@),
            all.finite(),
            done.len() == keys.len(),
            rem == rem_of(keys@, done@),
            rem.finite(),
            layers(edges@, all) == append_layers(acc, layers(edges@, rem)),
            order@.len() == acc.len(),
            forall|k: int| 0 <= k < acc.len() ==> names_layer(nodes@, #[trigger] order@[k]@, acc[k]),
        decreases rem.len(),
    {
        let ghost g = ready(edges@, rem);
        let group = ready_keys(edges, &keys, &done);
        proof {
            let j = choose|j: int| 0 <= j < done@.len() && !done@[j];
            assert(rem.contains(keys@[j]));
            vstd::set::axiom_set_contains_len(rem, keys@[j]);
            rem.lemma_len_filter(
                |n: NodeId| forall|d: NodeId| #[trigger] depends_on(edges@, n, d) ==> !rem.contains(d),
            );
        }
        if group.len() == 0 {
            proof {
                assert(g =~= Set::<NodeId>::empty());
            }
            return None;
        }
        proof {
            assert(layer_nodes(keys@, group@).contains(keys@[group@[0] as int]));
            vstd::set::axiom_set_contains_len(g, keys@[group@[0] as int]);
        }
        let out = match node_positions(nodes, &keys, &group) {
            Some(o) => o,
            None => {
                proof {
                    let t = choose|t: int| 0 <= t < group@.len() && !nodes@.contains(keys@[#[trigger] group@[t] as int]);
                    assert(keys@.contains(keys@[group@[t] as int]));
                }
                return None;
            },
        };
        let ghost done_before = done@;
        mark_done(&mut done, &group);
        proof {
            lemma_mark_removes(keys@, done_before, done@, group@);
            lemma_ready_shrinks(edges@, rem);
            match layers(edges@, rem.difference(g)) {
                Some(rest) => {
                    assert(acc + (seq![g] + rest) =~= acc.push(g) + rest);
                },
                None => {},
            }
        }
        let ghost order_before = order@;
        order.push(out);
        proof {
            assert forall|k: int| 0 <= k < acc.len() + 1 implies names_layer(
                nodes@,
                #[trigger] order@[k]@,
                acc.push(g)[k],
            ) by {
                if k < acc.len() {
                    assert(order@[k] == order_before[k]);
                }
            }
            acc = acc.push(g);
            rem = rem.difference(g);
        }
    }
    proof {
        assert(rem =~= Set::<NodeId>::empty()) by {
            assert forall|n: NodeId| !rem.contains(n) by {
                if rem.contains(n) {
                    let j = choose|j: int| 0 <= j < keys@.len() && !done@[j] && #[trigger] keys@[j] == n;
                }
            }
        }
        assert(acc + Seq::<Set<NodeId>>::empty() =~= acc);
    }
    Some(order)
}

/// A grown device keeps the commands it had and the ids it handed out.
pub proof fn lemma_device_grew_trans(
    a: crate::device::DeviceView,
    b: crate::device::DeviceView,
    c: crate::device::DeviceView,
)
    requires
        device_grew(a, b),
        device_grew(b, c),
    ensures
        device_grew(a, c),
        forall|cmd: crate::device::DeviceCommand| b.commands.contains(cmd) ==> c.commands.contains(cmd),
{
    assert(c.commands.subrange(0, a.commands.len() as int) =~= b.commands.subrange(0, a.commands.len() as int));
    assert forall|cmd: crate::device::DeviceCommand| b.commands.contains(cmd) implies c.commands.contains(cmd) by {
        let j = choose|j: int| 0 <= j < b.commands.len() && b.commands[j] == cmd;
        assert(c.commands.subrange(0, b.commands.len() as int)[j] == cmd);
        assert(c.commands[j] == cmd);
    }
}

/// The abstract state of a render-graph builder.
pub struct RenderGraphBuilderView {
    pub resources: GraphResourcesView,
    pub nodes: Seq<NodeId>,
    pub edges: Seq<NodeEdge>,
}

/// Collects the nodes, edges and resources of a render graph.
pub struct RenderGraphBuilder {
    resources: GraphResources,
    nodes: Vec<NodeId>,
    edges: Vec<NodeEdge>,
}

impl View for RenderGraphBuilder {
    type V = RenderGraphBuilderView;

    closed spec fn view(&self) -> RenderGraphBuilderView {
        RenderGraphBuilderView { resources: self.resources@, nodes: self.nodes@, edges: self.edges@ }
    }
}

/// How the resources stand after a graph was built at `width` by `height`:
/// described buffers were created, then described textures at the grown size.
pub open spec fn resources_built(
    before: GraphResourcesView,
    after: GraphResourcesView,
    width: u32,
    height: u32,
    d0: crate::device::DeviceView,
    d1: crate::device::DeviceView,
) -> bool {
    &&& after.width == max_u32(before.width, width)
    &&& after.height == max_u32(before.height, height)
    &&& after.texture_descs == before.texture_descs
    &&& after.buffer_descs == before.buffer_descs
    &&& device_grew(d0, d1)
    &&& forall|k: u32|
        after.buffers.contains_key(k) <==> (before.buffers.contains_key(k) || before.buffer_descs.contains_key(k))
    &&& forall|k: u32| before.buffers.contains_key(k) ==> after.buffers[k] == before.buffers[k]
    &&& forall|k: u32|
        !before.buffers.contains_key(k) && before.buffer_descs.contains_key(k) ==> buffer_created(
            #[trigger] after.buffers[k],
            before.buffer_descs[k],
            d0,
            d1,
        )
    &&& (width <= before.width && height <= before.height) ==> after.textures == before.textures
    &&& (width > before.width || height > before.height) ==> {
        &&& forall|k: u32|
            after.textures.contains_key(k) <==> (before.textures.contains_key(k)
                || before.texture_descs.contains_key(k))
        &&& forall|k: u32| before.textures.contains_key(k) ==> after.textures[k] == before.textures[k]
        &&& forall|k: u32|
            !before.textures.contains_key(k) && before.texture_descs.contains_key(k) ==> texture_created(
                #[trigger] after.textures[k],
                before.texture_descs[k],
                after.width,
                after.height,
                d0,
                d1,
            )
    }
}

impl RenderGraphBuilder {
    /// How many textures the builder describes.
    pub closed spec fn texture_desc_count(&self) -> nat {
        self.resources.texture_desc_count()
    }

    /// How many buffers the builder describes.
    pub closed spec fn buffer_desc_count(&self) -> nat {
        self.resources.buffer_desc_count()
    }

    /// No node, edge or resource.
    pub fn new() -> (r: RenderGraphBuilder)
        ensures
            r@.nodes == Seq::<NodeId>::empty(),
            r@.edges == Seq::<NodeEdge>::empty(),
            r@.resources == (GraphResourcesView {
                width: 0,
                height: 0,
                texture_descs: Map::empty(),
                buffer_descs: Map::empty(),
                textures: Map::empty(),
                buffers: Map::empty(),
            }),
    {
        RenderGraphBuilder { resources: GraphResources::new(), nodes: Vec::new(), edges: Vec::new() }
    }

    pub fn node_count(&self) -> (r: usize)
        ensures
            r == self@.nodes.len(),
    {
        self.nodes.len()
    }

    /// The nodes, in the order they were added.
    pub fn nodes(&self) -> (r: &[NodeId])
        ensures
            r@ == self@.nodes,
    {
        self.nodes.as_slice()
    }

    pub fn edges(&self) -> (r: &[NodeEdge])
        ensures
            r@ == self@.edges,
    {
        self.edges.as_slice()
    }

    pub fn resources(&self) -> (r: &GraphResources)
        ensures
            r@ == self@.resources,
    {
        &self.resources
    }

    /// Whether the node `id` was added.
    pub fn has_node(&self, id: NodeId) -> (r: bool)
        ensures
            r == self@.nodes.contains(id),
    {
        contains_node(&self.nodes, id)
    }

    /// Adds the node `id`; a node added again keeps its place.
    pub fn add_node(&mut self, id: NodeId)
        ensures
            final(self)@.resources == old(self)@.resources,
            final(self)@.edges == old(self)@.edges,
            final(self)@.nodes == if old(self)@.nodes.contains(id) {
                old(self)@.nodes
            } else {
                old(self)@.nodes.push(id)
            },
            old(self)@.nodes.no_duplicates() ==> final(self)@.nodes.no_duplicates(),
    {
        if !contains_node(&self.nodes, id) {
            self.nodes.push(id);
        }
    }

    /// Adds an edge from the slot `from` to the slot `to`.
    pub fn add_edge(&mut self, from: EdgeSlot, to: EdgeSlot)
        ensures
            final(self)@ == (RenderGraphBuilderView {
                edges: old(self)@.edges.push(NodeEdge { from, to }),
                ..old(self)@
            }),
    {
        self.edges.push(NodeEdge { from, to });
    }

    /// Describes a texture that the graph creates at its size.
    pub fn create_texture(&mut self, name: &str, desc: TextureDesc) -> (r: Id<RenderGraphTexture>)
        ensures
            r.spec_id() == name_crc32(name@),
            final(self)@ == (RenderGraphBuilderView {
                resources: GraphResourcesView {
                    texture_descs: old(self)@.resources.texture_descs.insert(r.spec_id(), desc),
                    ..old(self)@.resources
                },
                ..old(self)@
            }),
    {
        self.resources.create_texture(name, desc)
    }

    /// Describes a buffer that the graph creates when it is built.
    pub fn create_buffer(&mut self, name: &str, desc: BufferDesc) -> (r: Id<RenderGraphBuffer>)
        ensures
            r.spec_id() == name_crc32(name@),
            final(self)@ == (RenderGraphBuilderView {
                resources: GraphResourcesView {
                    buffer_descs: old(self)@.resources.buffer_descs.insert(r.spec_id(), desc),
                    ..old(self)@.resources
                },
                ..old(self)@
            }),
    {
        self.resources.create_buffer(name, desc)
    }

    pub fn import_texture(&mut self, name: &str, texture: RenderGraphTexture) -> (r: Id<RenderGraphTexture>)
        ensures
            r.spec_id() == name_crc32(name@),
            final(self)@ == (RenderGraphBuilderView {
                resources: GraphResourcesView {
                    textures: old(self)@.resources.textures.insert(r.spec_id(), texture),
                    ..old(self)@.resources
                },
                ..old(self)@
            }),
    {
        self.resources.import_texture(name, texture)
    }

    pub fn import_buffer(&mut self, name: &str, buffer: RenderGraphBuffer) -> (r: Id<RenderGraphBuffer>)
        ensures
            r.spec_id() == name_crc32(name@),
            final(self)@ == (RenderGraphBuilderView {
                resources: GraphResourcesView {
                    buffers: old(self)@.resources.buffers.insert(r.spec_id(), buffer),
                    ..old(self)@.resources
                },
                ..old(self)@
            }),
    {
        self.resources.import_buffer(name, buffer)
    }

    /// The layers in which the nodes run, as positions in `nodes()`; `None`
    /// when the dependencies form a cycle or name a node never added.
    pub fn build_order(&self) -> (r: Option<Vec<Vec<usize>>>)
        requires
            self@.nodes.no_duplicates(),
        ensures
            match r {
                Some(order) => layers(self@.edges, dependents(self@.edges)) matches Some(ls) && order@.len()
                    == ls.len() && forall|k: int|
                    0 <= k < ls.len() ==> names_layer(self@.nodes, #[trigger] order@[k]@, ls[k]),
                None => layers(self@.edges, dependents(self@.edges)) is None || exists|n: NodeId|
                    dependents(self@.edges).contains(n) && !self@.nodes.contains(n),
            },
    {
        build_order(self.nodes.as_slice(), self.edges.as_slice())
    }

    /// Builds the graph for a surface of `width` by `height`: creates the
    /// described buffers, grows the resources to the surface size and orders
    /// the nodes. `None` when the nodes cannot be ordered.
    pub fn build(self, device: &mut RenderDevice, width: u32, height: u32) -> (r: Option<RenderGraph>)
        requires
            self@.nodes.no_duplicates(),
            old(device)@.next_id + self.buffer_desc_count() + 2 * self.texture_desc_count() < u64::MAX,
        ensures
            match r {
                Some(g) => {
                    &&& g@.nodes == self@.nodes
                    &&& layers(self@.edges, dependents(self@.edges)) matches Some(ls) && g@.order.len() == ls.len()
                        && forall|k: int| 0 <= k < ls.len() ==> names_layer(self@.nodes, #[trigger] g@.order[k], ls[k])
                    &&& resources_built(self@.resources, g@.resources, width, height, old(device)@, final(device)@)
                },
                None => layers(self@.edges, dependents(self@.edges)) is None || exists|n: NodeId|
                    dependents(self@.edges).contains(n) && !self@.nodes.contains(n),
            },
    {
        let RenderGraphBuilder { mut resources, nodes, edges } = self;
        let ghost r0 = resources@;
        let ghost d0 = device@;
        resources.build(device);
        let ghost r1 = resources@;
        let ghost d1 = device@;
        resources.resize(device, width, height);
        proof {
            lemma_device_grew_trans(d0, d1, device@);
            assert forall|k: u32|
                !r0.buffers.contains_key(k) && r0.buffer_descs.contains_key(k) implies buffer_created(
                #[trigger] resources@.buffers[k],
                r0.buffer_descs[k],
                d0,
                device@,
            ) by {
                assert(buffer_created(r1.buffers[k], r0.buffer_descs[k], d0, d1));
            }
            if width > r0.width || height > r0.height {
                assert forall|k: u32|
                    !r0.textures.contains_key(k) && r0.texture_descs.contains_key(k) implies texture_created(
                    #[trigger] resources@.textures[k],
                    r0.texture_descs[k],
                    resources@.width,
                    resources@.height,
                    d0,
                    device@,
                ) by {
                    assert(texture_created(
                        resources@.textures[k],
                        r1.texture_descs[k],
                        resources@.width,
                        resources@.height,
                        d1,
                        device@,
                    ));
                }
            }
        }
        match build_order(nodes.as_slice(), edges.as_slice()) {
            Some(order) => {
                let g = RenderGraph { resources, nodes, order };
                proof {
                    assert forall|k: int| 0 <= k < g.order@.len() implies g@.order[k] == g.order@[k]@ by {}
                }
                Some(g)
            },
            None => None,
        }
    }
}

/// The abstract state of a render graph.
pub struct RenderGraphView {
    pub resources: GraphResourcesView,
    pub nodes: Seq<NodeId>,
    pub order: Seq<Seq<usize>>,
}

/// The node positions in the order they run: layer after layer.
pub open spec fn run_sequence(order: Seq<Seq<usize>>) -> Seq<usize>
    decreases order.len(),
{
    if order.len() == 0 {
        Seq::empty()
    } else {
        run_sequence(order.drop_last()) + order.last()
    }
}

/// A built render graph: its resources, its nodes and the layers in which
/// they run.
pub struct RenderGraph {
    resources: GraphResources,
    nodes: Vec<NodeId>,
    order: Vec<Vec<usize>>,
}

impl View for RenderGraph {
    type V = RenderGraphView;

    closed spec fn view(&self) -> RenderGraphView {
        RenderGraphView {
            resources: self.resources@,
            nodes: self.nodes@,
            order: Seq::new(self.order@.len(), |k: int| self.order@[k]@),
        }
    }
}

impl RenderGraph {
    /// How many textures the graph describes.
    pub closed spec fn texture_desc_count(&self) -> nat {
        self.resources.texture_desc_count()
    }

    pub fn resources(&self) -> (r: &GraphResources)
        ensures
            r@ == self@.resources,
    {
        &self.resources
    }

    /// The nodes; the order names them by position.
    pub fn nodes(&self) -> (r: &[NodeId])
        ensures
            r@ == self@.nodes,
    {
        self.nodes.as_slice()
    }

    /// The number of layers.
    pub fn layer_count(&self) -> (r: usize)
        ensures
            r == self@.order.len(),
    {
        self.order.len()
    }

    /// The nodes to run, by position, layer after layer; none when the
    /// surface has no render target to draw into.
    pub fn run_order(&self, has_target: bool) -> (r: Vec<usize>)
        ensures
            r@ == if has_target {
                run_sequence(self@.order)
            } else {
                Seq::empty()
            },
    {
        let mut r: Vec<usize> = Vec::new();
        if !has_target {
            return r;
        }
        let ghost order = self@.order;
        let mut k: usize = 0;
        while k < self.order.len()
            invariant
                k <= order.len(),
                order == self@.order,
                order.len() == self.order@.len(),
                r@ == run_sequence(order.subrange(0, k as int)),
            decreases order.len() - k,
        {
            let layer = &self.order[k];
            let ghost before = r@;
            let mut j: usize = 0;
            while j < layer.len()
                invariant
                    j <= layer@.len(),
                    r@ == before + layer@.subrange(0, j as int),
                decreases layer@.len() - j,
            {
                r.push(layer[j]);
                j = j + 1;
                assert(r@ =~= before + layer@.subrange(0, j as int));
            }
            proof {
                let sub = order.subrange(0, k + 1);
                assert(sub.drop_last() =~= order.subrange(0, k as int));
                assert(sub.last() == layer@);
                assert(layer@.subrange(0, layer@.len() as int) =~= layer@);
            }
            k = k + 1;
        }
        proof {
            assert(order.subrange(0, order.len() as int) =~= order);
        }
        r
    }

    /// The positions of the nodes that run in layer `k`.
    pub fn layer(&self, k: usize) -> (r: &[usize])
        requires
            k < self@.order.len(),
        ensures
            r@ == self@.order[k as int],
    {
        self.order[k].as_slice()
    }

    pub fn import_texture(&mut self, name: &str, texture: RenderGraphTexture) -> (r: Id<RenderGraphTexture>)
        ensures
            r.spec_id() == name_crc32(name@),
            final(self)@ == (RenderGraphView {
                resources: GraphResourcesView {
                    textures: old(self)@.resources.textures.insert(r.spec_id(), texture),
                    ..old(self)@.resources
                },
                ..old(self)@
            }),
    {
        self.resources.import_texture(name, texture)
    }

    pub fn import_buffer(&mut self, name: &str, buffer: RenderGraphBuffer) -> (r: Id<RenderGraphBuffer>)
        ensures
            r.spec_id() == name_crc32(name@),
            final(self)@ == (RenderGraphView {
                resources: GraphResourcesView {
                    buffers: old(self)@.resources.buffers.insert(r.spec_id(), buffer),
                    ..old(self)@.resources
                },
                ..old(self)@
            }),
    {
        self.resources.import_buffer(name, buffer)
    }

    pub fn remove_texture(&mut self, handle: Id<RenderGraphTexture>)
        ensures
            final(self)@ == (RenderGraphView {
                resources: GraphResourcesView {
                    textures: old(self)@.resources.textures.remove(handle.spec_id()),
                    ..old(self)@.resources
                },
                ..old(self)@
            }),
    {
        self.resources.remove_texture(handle);
    }

    pub fn remove_buffer(&mut self, handle: Id<RenderGraphBuffer>)
        ensures
            final(self)@ == (RenderGraphView {
                resources: GraphResourcesView {
                    buffers: old(self)@.resources.buffers.remove(handle.spec_id()),
                    ..old(self)@.resources
                },
                ..old(self)@
            }),
    {
        self.resources.remove_buffer(handle);
    }

    /// Grows the graph's resources to cover `width` by `height`.
    pub fn resize(&mut self, device: &mut RenderDevice, width: u32, height: u32)
        requires
            old(device)@.next_id + 2 * old(self).texture_desc_count() < u64::MAX,
        ensures
            final(self)@.nodes == old(self)@.nodes,
            final(self)@.order == old(self)@.order,
            final(self)@.resources.width == max_u32(old(self)@.resources.width, width),
            final(self)@.resources.height == max_u32(old(self)@.resources.height, height),
            final(self)@.resources.texture_descs == old(self)@.resources.texture_descs,
            final(self)@.resources.buffer_descs == old(self)@.resources.buffer_descs,
            final(self)@.resources.buffers == old(self)@.resources.buffers,
            device_grew(old(device)@, final(device)@),
            (width <= old(self)@.resources.width && height <= old(self)@.resources.height)
                ==> final(self)@.resources.textures == old(self)@.resources.textures,
            (width > old(self)@.resources.width || height > old(self)@.resources.height) ==> forall|k: u32|
                final(self)@.resources.textures.contains_key(k) <==> (old(self)@.resources.textures.contains_key(k)
                    || old(self)@.resources.texture_descs.contains_key(k)),
    {
        self.resources.resize(device, width, height);
    }
}

/// What a render node hands back: a command buffer to submit (by id), or
/// a request to submit what was recorded so far.
#[derive(Clone, Copy, PartialEq, Eq, Structural, Debug)]
pub enum RenderNodeAction {
    Submit(u64),
    Flush,
}

} // verus!
