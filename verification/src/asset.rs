use vstd::prelude::*;

verus! {

/// Whether the CPU side of an asset stays readable and writable.
#[derive(Clone, Copy, PartialEq, Eq, Structural, Debug)]
pub enum ReadWrite {
    Enabled,
    Disabled,
}

/// Whether the source of an asset is kept once it was extracted.
#[derive(Clone, Copy, PartialEq, Eq, Structural, Debug)]
pub enum AssetUsage {
    Keep,
    Discard,
}

/// The world a render asset lives in.
#[derive(Clone, Copy, PartialEq, Eq, Structural, Debug)]
pub enum RenderAssetWorld {
    Main,
    Render,
}

/// Why an asset could not be extracted.
#[derive(Clone, PartialEq, Eq, Debug)]
pub enum ExtractError {
    MissingAsset,
    MissingDependency,
    DependencyFailed,
    Error(String),
}

impl ExtractError {
    /// Wraps the message of another error.
    pub fn from_error(message: String) -> (r: ExtractError)
        ensures
            r == ExtractError::Error(message),
    {
        ExtractError::Error(message)
    }

    /// The text the error is shown as.
    pub fn to_string(&self) -> (r: String)
        ensures
            match self {
                ExtractError::MissingAsset => r@ == "Missing asset"@,
                ExtractError::MissingDependency => r@ == "Missing dependency"@,
                ExtractError::DependencyFailed => r@ == "Dependency failed"@,
                ExtractError::Error(m) => r@ == m@,
            },
    {
        match self {
            ExtractError::MissingAsset => String::from_str("Missing asset"),
            ExtractError::MissingDependency => String::from_str("Missing dependency"),
            ExtractError::DependencyFailed => String::from_str("Dependency failed"),
            ExtractError::Error(m) => m.clone(),
        }
    }
}

/// What happened to a source asset, by its id.
#[derive(Clone, Copy, PartialEq, Eq, Structural, Debug)]
pub enum RenderAssetAction {
    Added { id: u128 },
    Modified { id: u128 },
    Removed { id: u128 },
}

/// The elements of `s` whose entry in `keep` is true, in order.
pub open spec fn filter_by_mask<T>(s: Seq<T>, keep: Seq<bool>) -> Seq<T>
    decreases s.len(),
{
    if s.len() == 0 {
        Seq::empty()
    } else {
        let rest = filter_by_mask(s.drop_last(), keep.drop_last());
        if keep.last() {
            rest.push(s.last())
        } else {
            rest
        }
    }
}

/// The pending asset actions, in the order they happened.
pub struct RenderAssetActions {
    actions: Vec<RenderAssetAction>,
}

impl View for RenderAssetActions {
    type V = Seq<RenderAssetAction>;

    closed spec fn view(&self) -> Seq<RenderAssetAction> {
        self.actions@
    }
}

impl RenderAssetActions {
    pub fn new() -> (r: RenderAssetActions)
        ensures
            r@ == Seq::<RenderAssetAction>::empty(),
    {
        RenderAssetActions { actions: Vec::new() }
    }

    pub fn add(&mut self, action: RenderAssetAction)
        ensures
            final(self)@ == old(self)@.push(action),
    {
        self.actions.push(action);
    }

    /// Appends all actions of `actions`, in order.
    pub fn extend(&mut self, actions: Vec<RenderAssetAction>)
        ensures
            final(self)@ == old(self)@ + actions@,
    {
        let mut i: usize = 0;
        while i < actions.len()
            invariant
                i <= actions@.len(),
                self@ == old(self)@ + actions@.subrange(0, i as int),
            decreases actions@.len() - i,
        {
            self.actions.push(actions[i]);
            i = i + 1;
            assert(self@ =~= old(self)@ + actions@.subrange(0, i as int));
        }
        assert(actions@.subrange(0, actions@.len() as int) =~= actions@);
    }

    /// The actions, oldest first.
    pub fn iter(&self) -> (r: &[RenderAssetAction])
        ensures
            r@ == self@,
    {
        self.actions.as_slice()
    }

    /// Keeps the actions for which `f` answers true, in their order.
    pub fn retain<F: Fn(&RenderAssetAction) -> bool>(&mut self, f: F)
        requires
            forall|a: RenderAssetAction| f.requires((&a,)),
        ensures
            exists|keep: Seq<bool>|
                #![trigger filter_by_mask(old(self)@, keep)]
                {
                    &&& keep.len() == old(self)@.len()
                    &&& forall|i: int|
                        0 <= i < keep.len() ==> f.ensures((&old(self)@[i],), #[trigger] keep[i])
                    &&& final(self)@ == filter_by_mask(old(self)@, keep)
                    &&& final(self)@.len() == kept_count(keep)
                },
    {
        let ghost original = self.actions@;
        let mut kept: Vec<RenderAssetAction> = Vec::new();
        let ghost mut keep: Seq<bool> = Seq::empty();
        let mut i: usize = 0;
        while i < self.actions.len()
            invariant
                i <= original.len(),
                self.actions@ == original,
                keep.len() == i,
                forall|j: int| 0 <= j < i ==> f.ensures((&original[j],), #[trigger] keep[j]),
                kept@ == filter_by_mask(original.subrange(0, i as int), keep),
                forall|a: RenderAssetAction| f.requires((&a,)),
            decreases original.len() - i,
        {
            let action = self.actions[i];
            let k = f(&action);
            if k {
                kept.push(action);
            }
            proof {
                let s = original.subrange(0, i + 1);
                assert(s.drop_last() =~= original.subrange(0, i as int));
                let old_keep = keep;
                keep = keep.push(k);
                assert(keep.drop_last() =~= old_keep);
            }
            i = i + 1;
        }
        assert(original.subrange(0, original.len() as int) =~= original);
        assert(keep.len() == original.len() && forall|j: int|
            0 <= j < keep.len() ==> f.ensures((&original[j],), #[trigger] keep[j]));
        self.actions = kept;
        assert(self@ == filter_by_mask(original, keep));
        assert(original == old(self)@);
        assert(keep.len() == old(self)@.len());
        assert(forall|j: int| 0 <= j < keep.len() ==> f.ensures((&old(self)@[j],), #[trigger] keep[j]));
        assert(self@ == filter_by_mask(old(self)@, keep));
        proof {
            lemma_action_counts(old(self)@, RenderAssetAction::Added { id: 0 }, Seq::empty(), keep);
        }
    }

    pub fn len(&self) -> (r: usize)
        ensures
            r == self@.len(),
    {
        self.actions.len()
    }

    pub fn clear(&mut self)
        ensures
            final(self)@ == Seq::<RenderAssetAction>::empty(),
    {
        self.actions.clear();
    }
}

/// The actions after each of `xs` was added, in order, to `start`.
pub open spec fn after_adds(start: Seq<RenderAssetAction>, xs: Seq<RenderAssetAction>) -> Seq<RenderAssetAction>
    decreases xs.len(),
{
    if xs.len() == 0 {
        start
    } else {
        after_adds(start, xs.drop_last()).push(xs.last())
    }
}

/// Actions added one by one are held, and handed out by `iter`, in the
/// order they were added; their number is the number added.
pub proof fn lemma_actions_in_order(start: Seq<RenderAssetAction>, xs: Seq<RenderAssetAction>)
    ensures
        after_adds(start, xs) == start + xs,
        after_adds(start, xs).len() == start.len() + xs.len(),
    decreases xs.len(),
{
    if xs.len() > 0 {
        lemma_actions_in_order(start, xs.drop_last());
        assert(start + xs =~= (start + xs.drop_last()).push(xs.last()));
    }
}

/// How many entries of `keep` are true.
pub open spec fn kept_count(keep: Seq<bool>) -> nat
    decreases keep.len(),
{
    if keep.len() == 0 {
        0
    } else {
        kept_count(keep.drop_last()) + if keep.last() {
            1nat
        } else {
            0nat
        }
    }
}

/// The number of actions across calls: `add` raises it by one, `extend` by
/// the number of actions given, `clear` makes it zero, and `retain` leaves
/// as many as it keeps.
pub proof fn lemma_action_counts(
    s: Seq<RenderAssetAction>,
    x: RenderAssetAction,
    xs: Seq<RenderAssetAction>,
    keep: Seq<bool>,
)
    requires
        keep.len() == s.len(),
    ensures
        s.push(x).len() == s.len() + 1,
        (s + xs).len() == s.len() + xs.len(),
        Seq::<RenderAssetAction>::empty().len() == 0,
        filter_by_mask(s, keep).len() == kept_count(keep),
    decreases s.len(),
{
    if s.len() > 0 {
        lemma_action_counts(s.drop_last(), x, xs, keep.drop_last());
    }
}

} // verus!
