use vstd::prelude::*;

verus! {

/// In a sequence without repeats, an element is found at its one position.
proof fn lemma_unique_position(keys: Seq<u128>, i: int)
    requires
        keys.no_duplicates(),
        0 <= i < keys.len(),
    ensures
        keys.index_of(keys[i]) == i,
{
    let j = keys.index_of(keys[i]);
    assert(keys.contains(keys[i]));
    assert(0 <= j < keys.len() && keys[j] == keys[i]);
}

/// The position of `id` in `keys`.
fn find_id(keys: &Vec<u128>, id: u128) -> (r: Option<usize>)
    ensures
        match r {
            Some(i) => i < keys@.len() && keys@[i as int] == id,
            None => !keys@.contains(id),
        },
{
    let mut i: usize = 0;
    while i < keys.len()
        invariant
            0 <= i <= keys@.len(),
            forall|j: int| 0 <= j < i ==> keys@[j] != id,
        decreases keys.len() - i,
    {
        if keys[i] == id {
            return Some(i);
        }
        i = i + 1;
    }
    None
}

/// The render-side values of assets, by asset id, in the order they were
/// first added.
pub struct RenderAssets<R> {
    ids: Vec<u128>,
    assets: Vec<R>,
}

impl<R> View for RenderAssets<R> {
    type V = Map<u128, R>;

    closed spec fn view(&self) -> Map<u128, R> {
        Map::new(|k: u128| self.ids@.contains(k), |k: u128| self.assets@[self.ids@.index_of(k)])
    }
}

impl<R> RenderAssets<R> {
    #[verifier::type_invariant]
    spec fn inv(&self) -> bool {
        &&& self.ids@.len() == self.assets@.len()
        &&& self.ids@.no_duplicates()
    }

    /// The ids in order.
    pub closed spec fn id_seq(&self) -> Seq<u128> {
        self.ids@
    }

    /// The values in the order of their ids.
    pub closed spec fn value_seq(&self) -> Seq<R> {
        self.assets@
    }

    /// The map pairs the `i`-th id with the `i`-th value, and has no other key.
    pub proof fn lemma_order(&self)
        requires
            self.id_seq().len() == self.value_seq().len(),
            self.id_seq().no_duplicates(),
        ensures
            forall|i: int| 0 <= i < self.id_seq().len() ==> #[trigger] self@[self.id_seq()[i]] == self.value_seq()[i],
            forall|k: u128| self@.contains_key(k) <==> self.id_seq().contains(k),
    {
        assert forall|i: int| 0 <= i < self.id_seq().len() implies #[trigger] self@[self.id_seq()[i]]
            == self.value_seq()[i] by {
            lemma_unique_position(self.ids@, i);
        }
    }

    pub fn new() -> (r: RenderAssets<R>)
        ensures
            r@ == Map::<u128, R>::empty(),
            r.id_seq() == Seq::<u128>::empty(),
    {
        let r = RenderAssets { ids: Vec::new(), assets: Vec::new() };
        assert(r@ =~= Map::<u128, R>::empty());
        r
    }

    /// Stores `asset` under `id`; a new id goes last, a known one keeps its place.
    pub fn add(&mut self, id: u128, asset: R)
        ensures
            final(self)@ == old(self)@.insert(id, asset),
            old(self)@.contains_key(id) ==> final(self).id_seq() == old(self).id_seq(),
            !old(self)@.contains_key(id) ==> final(self).id_seq() == old(self).id_seq().push(id),
    {
        proof {
            use_type_invariant(&*self);
        }
        let mut taken = RenderAssets { ids: Vec::new(), assets: Vec::new() };
        std::mem::swap(&mut taken, self);
        let RenderAssets { mut ids, mut assets } = taken;
        let ghost oi = ids@;
        let ghost oa = assets@;
        let pos = find_id(&ids, id);
        let found = pos.is_some();
        let i: usize = match pos {
            Some(p) => p,
            None => 0,
        };
        if found {
            assets.set(i, asset);
        } else {
            ids.push(id);
            assets.push(asset);
        }
        proof {
            let m = Map::new(|x: u128| ids@.contains(x), |x: u128| assets@[ids@.index_of(x)]);
            let om = Map::new(|x: u128| oi.contains(x), |x: u128| oa[oi.index_of(x)]);
            assert(ids@.no_duplicates()) by {
                if !found {
                    assert forall|a: int, b: int| 0 <= a < b < ids@.len() implies ids@[a] != ids@[b] by {
                        if b == oi.len() {
                            assert(ids@[a] == oi[a]);
                        }
                    }
                }
            }
            assert forall|x: u128| #[trigger] m.contains_key(x) implies om.insert(id, asset).contains_key(x)
                && m[x] == om.insert(id, asset)[x] by {
                let j = ids@.index_of(x);
                assert(0 <= j < ids@.len() && ids@[j] == x);
                lemma_unique_position(ids@, j);
                if x != id {
                    assert(j < oi.len() && oi[j] == x);
                    lemma_unique_position(oi, j);
                }
            }
            assert forall|x: u128| om.insert(id, asset).contains_key(x) implies #[trigger] m.contains_key(x) by {
                if x != id {
                    let j = oi.index_of(x);
                    assert(ids@[j] == x);
                } else if !found {
                    assert(ids@[oi.len() as int] == x);
                } else {
                    assert(ids@[i as int] == x);
                }
            }
            assert(m =~= om.insert(id, asset));
        }
        *self = RenderAssets { ids, assets };
    }

    pub fn get(&self, id: u128) -> (r: Option<&R>)
        ensures
            match r {
                Some(v) => self@.contains_key(id) && *v == self@[id],
                None => !self@.contains_key(id),
            },
    {
        proof {
            use_type_invariant(self);
        }
        match find_id(&self.ids, id) {
            Some(i) => {
                proof {
                    lemma_unique_position(self.ids@, i as int);
                }
                Some(&self.assets[i])
            },
            None => None,
        }
    }

    /// Takes out the value of `id`; the others keep their order.
    pub fn remove(&mut self, id: u128) -> (r: Option<R>)
        ensures
            final(self)@ == old(self)@.remove(id),
            match r {
                Some(v) => old(self)@.contains_key(id) && v == old(self)@[id],
                None => !old(self)@.contains_key(id),
            },
            final(self).id_seq() == without(old(self).id_seq(), id),
    {
        proof {
            use_type_invariant(&*self);
        }
        match find_id(&self.ids, id) {
            Some(i) => {
                let mut taken = RenderAssets { ids: Vec::new(), assets: Vec::new() };
                std::mem::swap(&mut taken, self);
                let RenderAssets { mut ids, mut assets } = taken;
                let ghost oi = ids@;
                let ghost oa = assets@;
                proof {
                    lemma_unique_position(oi, i as int);
                }
                ids.remove(i);
                let v = assets.remove(i);
                proof {
                    assert(ids@ =~= oi.subrange(0, i as int) + oi.subrange(i + 1, oi.len() as int));
                    assert(ids@.no_duplicates()) by {
                        assert forall|a: int, b: int| 0 <= a < b < ids@.len() implies ids@[a] != ids@[b] by {
                            let xa = if a < i { a } else { a + 1 };
                            let xb = if b < i { b } else { b + 1 };
                            assert(ids@[a] == oi[xa] && ids@[b] == oi[xb]);
                        }
                    }
                    lemma_without_unique(oi, i as int);
                    let m = Map::new(|x: u128| ids@.contains(x), |x: u128| assets@[ids@.index_of(x)]);
                    let om = Map::new(|x: u128| oi.contains(x), |x: u128| oa[oi.index_of(x)]);
                    assert forall|x: u128| #[trigger] m.contains_key(x) implies om.remove(id).contains_key(x) && m[x]
                        == om.remove(id)[x] by {
                        let j = ids@.index_of(x);
                        assert(0 <= j < ids@.len() && ids@[j] == x);
                        lemma_unique_position(ids@, j);
                        let xj = if j < i { j } else { j + 1 };
                        assert(oi[xj] == x);
                        lemma_unique_position(oi, xj);
                    }
                    assert forall|x: u128| om.remove(id).contains_key(x) implies #[trigger] m.contains_key(x) by {
                        let j = oi.index_of(x);
                        assert(0 <= j < oi.len() && oi[j] == x);
                        if j < i {
                            assert(ids@[j] == x);
                        } else {
                            assert(j != i);
                            assert(ids@[j - 1] == x);
                        }
                    }
                    assert(m =~= om.remove(id));
                }
                *self = RenderAssets { ids, assets };
                Some(v)
            },
            None => {
                proof {
                    assert(self@ =~= old(self)@.remove(id));
                    lemma_without_absent(self.ids@, id);
                }
                None
            },
        }
    }

    pub fn contains(&self, id: u128) -> (r: bool)
        ensures
            r == self@.contains_key(id),
    {
        find_id(&self.ids, id).is_some()
    }

    /// The number of assets; there are as many values as ids, and no id twice.
    pub fn len(&self) -> (r: usize)
        ensures
            r == self.id_seq().len(),
            r == self@.len(),
            self.value_seq().len() == r,
            self.id_seq().no_duplicates(),
    {
        proof {
            use_type_invariant(self);
            lemma_dom_is_ids(self);
        }
        self.ids.len()
    }

    pub fn is_empty(&self) -> (r: bool)
        ensures
            r == (self.id_seq().len() == 0),
    {
        self.ids.len() == 0
    }

    /// Forgets every asset.
    pub fn clear(&mut self)
        ensures
            final(self)@ == Map::<u128, R>::empty(),
            final(self).id_seq() == Seq::<u128>::empty(),
    {
        *self = RenderAssets::new();
    }

    /// The ids, in order.
    pub fn ids(&self) -> (r: &[u128])
        ensures
            r@ == self.id_seq(),
    {
        self.ids.as_slice()
    }

    /// The values, in the order of their ids.
    pub fn values(&self) -> (r: &[R])
        ensures
            r@ == self.value_seq(),
    {
        self.assets.as_slice()
    }

    /// The `index`-th value.
    pub fn index(&self, index: usize) -> (r: &R)
        requires
            index < self.id_seq().len(),
        ensures
            *r == self.value_seq()[index as int],
            *r == self@[self.id_seq()[index as int]],
    {
        proof {
            use_type_invariant(self);
            lemma_unique_position(self.ids@, index as int);
        }
        &self.assets[index]
    }
}

/// The domain of the map has as many keys as the id list has ids.
proof fn lemma_dom_is_ids<R>(a: &RenderAssets<R>)
    requires
        a.id_seq().no_duplicates(),
    ensures
        a@.len() == a.id_seq().len(),
{
    a.id_seq().unique_seq_to_set();
    assert(a@.dom() =~= a.id_seq().to_set());
}

/// The ids of `keys` other than `x`, in order.
pub open spec fn without(keys: Seq<u128>, x: u128) -> Seq<u128>
    decreases keys.len(),
{
    if keys.len() == 0 {
        keys
    } else if keys.last() == x {
        without(keys.drop_last(), x)
    } else {
        without(keys.drop_last(), x).push(keys.last())
    }
}

/// Dropping the one occurrence of `keys[i]` leaves the other ids.
proof fn lemma_without_unique(keys: Seq<u128>, i: int)
    requires
        keys.no_duplicates(),
        0 <= i < keys.len(),
    ensures
        keys.subrange(0, i) + keys.subrange(i + 1, keys.len() as int) == without(keys, keys[i]),
    decreases keys.len(),
{
    let x = keys[i];
    let last = keys.len() - 1;
    let d = keys.drop_last();
    if i == last {
        assert(!d.contains(x)) by {
            if d.contains(x) {
                let j = choose|j: int| 0 <= j < d.len() && d[j] == x;
                assert(keys[j] == keys[last]);
            }
        }
        lemma_without_absent(d, x);
        assert(keys.subrange(0, i) + keys.subrange(i + 1, keys.len() as int) =~= d);
    } else {
        assert(d.no_duplicates());
        assert(d[i] == x);
        lemma_without_unique(d, i);
        assert(keys.last() != x) by {
            assert(keys[last] == keys.last());
        }
        assert(keys.subrange(0, i) + keys.subrange(i + 1, keys.len() as int) =~= (d.subrange(0, i) + d.subrange(
            i + 1,
            d.len() as int,
        )).push(keys.last()));
    }
}

/// Leaving out an id that does not occur changes nothing.
proof fn lemma_without_absent(keys: Seq<u128>, x: u128)
    requires
        !keys.contains(x),
    ensures
        without(keys, x) == keys,
    decreases keys.len(),
{
    if keys.len() > 0 {
        let d = keys.drop_last();
        assert(!d.contains(x)) by {
            if d.contains(x) {
                let j = choose|j: int| 0 <= j < d.len() && d[j] == x;
                assert(keys[j] == x);
            }
        }
        lemma_without_absent(d, x);
        assert(keys.last() != x) by {
            assert(keys[keys.len() - 1] == keys.last());
        }
        assert(d.push(keys.last()) =~= keys);
    }
}

/// What `get` gives back after `add`: the asset just added under its id,
/// and for every other id what it had; after `remove` the id is gone.
pub proof fn lemma_get_after_add<R>(m: Map<u128, R>, id: u128, asset: R, other: u128)
    ensures
        m.insert(id, asset).contains_key(id),
        m.insert(id, asset)[id] == asset,
        other != id ==> m.insert(id, asset).contains_key(other) == m.contains_key(other),
        other != id && m.contains_key(other) ==> m.insert(id, asset)[other] == m[other],
        !m.remove(id).contains_key(id),
        other != id ==> m.remove(id).contains_key(other) == m.contains_key(other),
{
}

} // verus!
