use crate::asset::{AssetUsage, ExtractError, RenderAssetAction, RenderAssetActions};
use vstd::prelude::*;

verus! {

/// The assets to extract again at the next frame, in the order they failed,
/// each once.
pub struct ReExtractAssets {
    assets: Vec<u128>,
}

impl View for ReExtractAssets {
    type V = Seq<u128>;

    closed spec fn view(&self) -> Seq<u128> {
        self.assets@
    }
}

impl ReExtractAssets {
    pub fn new() -> (r: ReExtractAssets)
        ensures
            r@ == Seq::<u128>::empty(),
    {
        ReExtractAssets { assets: Vec::new() }
    }

    pub fn contains(&self, id: u128) -> (r: bool)
        ensures
            r == self@.contains(id),
    {
        let mut i: usize = 0;
        while i < self.assets.len()
            invariant
                i <= self.assets@.len(),
                forall|j: int| 0 <= j < i ==> self.assets@[j] != id,
            decreases self.assets@.len() - i,
        {
            if self.assets[i] == id {
                return true;
            }
            i = i + 1;
        }
        false
    }

    /// Adds `id` unless it is already there.
    pub fn insert(&mut self, id: u128)
        ensures
            final(self)@ == if old(self)@.contains(id) {
                old(self)@
            } else {
                old(self)@.push(id)
            },
    {
        if !self.contains(id) {
            self.assets.push(id);
        }
    }

    pub fn len(&self) -> (r: usize)
        ensures
            r == self@.len(),
    {
        self.assets.len()
    }

    /// Takes all ids out, in order.
    pub fn drain(&mut self) -> (r: Vec<u128>)
        ensures
            r@ == old(self)@,
            final(self)@ == Seq::<u128>::empty(),
    {
        let mut taken = Vec::new();
        std::mem::swap(&mut taken, &mut self.assets);
        taken
    }
}

/// What an extractor does for one recorded action.
#[derive(Clone, Copy, PartialEq, Eq, Structural, Debug)]
pub enum ExtractStep {
    /// Create the render asset from the source.
    Extract { id: u128 },
    /// Update the existing render asset from the source.
    Update { id: u128 },
    /// Remove the render asset.
    Remove { id: u128 },
    /// Nothing can be done.
    Skip,
}

/// The step for one action: an added asset is extracted when its source
/// exists; a modified one is updated when both its source and its render
/// asset exist; a removed one is removed.
pub open spec fn spec_extract_step(action: RenderAssetAction, has_source: bool, has_target: bool) -> ExtractStep {
    match action {
        RenderAssetAction::Added { id } => if has_source {
            ExtractStep::Extract { id }
        } else {
            ExtractStep::Skip
        },
        RenderAssetAction::Modified { id } => if has_source && has_target {
            ExtractStep::Update { id }
        } else {
            ExtractStep::Skip
        },
        RenderAssetAction::Removed { id } => ExtractStep::Remove { id },
    }
}

pub fn extract_step(action: RenderAssetAction, has_source: bool, has_target: bool) -> (r: ExtractStep)
    ensures
        r == spec_extract_step(action, has_source, has_target),
{
    match action {
        RenderAssetAction::Added { id } => if has_source {
            ExtractStep::Extract { id }
        } else {
            ExtractStep::Skip
        },
        RenderAssetAction::Modified { id } => if has_source && has_target {
            ExtractStep::Update { id }
        } else {
            ExtractStep::Skip
        },
        RenderAssetAction::Removed { id } => ExtractStep::Remove { id },
    }
}

/// What follows an extraction.
#[derive(Clone, PartialEq, Eq, Debug)]
pub enum ExtractEffect {
    /// Store the render asset under the source's id; drop the source when asked.
    Store { discard_source: bool },
    /// Report the error and extract the asset again next frame.
    Fail { error: ExtractError, retry: u128 },
}

/// The effect of extracting asset `id`: on success (with the source's
/// usage) the render asset is stored, and the source dropped when its usage
/// is `Discard`; on failure the error is reported and the asset retried.
pub fn extracted(id: u128, result: Result<AssetUsage, ExtractError>) -> (r: ExtractEffect)
    ensures
        match result {
            Ok(usage) => r == ExtractEffect::Store { discard_source: usage == AssetUsage::Discard },
            Err(e) => r == ExtractEffect::Fail { error: e, retry: id },
        },
{
    match result {
        Ok(usage) => ExtractEffect::Store {
            discard_source: match usage {
                AssetUsage::Discard => true,
                AssetUsage::Keep => false,
            },
        },
        Err(e) => ExtractEffect::Fail { error: e, retry: id },
    }
}

/// What follows an update.
#[derive(Clone, PartialEq, Eq, Debug)]
pub enum UpdateEffect {
    /// Drop the source.
    DiscardSource,
    /// Report the error.
    Report(ExtractError),
    /// Nothing more.
    Keep,
}

/// The effect of an update: on success the source is dropped when its usage
/// is `Discard`; a failure is reported (and not retried).
pub fn updated(result: Result<AssetUsage, ExtractError>) -> (r: UpdateEffect)
    ensures
        match result {
            Ok(usage) => r == if usage == AssetUsage::Discard {
                UpdateEffect::DiscardSource
            } else {
                UpdateEffect::Keep
            },
            Err(e) => r == UpdateEffect::Report(e),
        },
{
    match result {
        Ok(AssetUsage::Discard) => UpdateEffect::DiscardSource,
        Ok(AssetUsage::Keep) => UpdateEffect::Keep,
        Err(e) => UpdateEffect::Report(e),
    }
}

/// What happened to a source asset.
#[derive(Clone, Copy, PartialEq, Eq, Structural, Debug)]
pub enum AssetEvent {
    Added { id: u128 },
    Loaded { id: u128 },
    Unloaded { id: u128 },
    Modified { id: u128 },
    Failed { id: u128 },
    Imported { id: u128 },
}

/// The render-asset action an asset event calls for: added and loaded
/// assets are extracted, unloaded and failed ones removed, modified ones
/// updated; an import calls for nothing.
pub open spec fn spec_action_for(event: AssetEvent) -> Option<RenderAssetAction> {
    match event {
        AssetEvent::Added { id } => Some(RenderAssetAction::Added { id }),
        AssetEvent::Loaded { id } => Some(RenderAssetAction::Added { id }),
        AssetEvent::Unloaded { id } => Some(RenderAssetAction::Removed { id }),
        AssetEvent::Modified { id } => Some(RenderAssetAction::Modified { id }),
        AssetEvent::Failed { id } => Some(RenderAssetAction::Removed { id }),
        AssetEvent::Imported { .. } => None,
    }
}

pub fn action_for(event: AssetEvent) -> (r: Option<RenderAssetAction>)
    ensures
        r == spec_action_for(event),
{
    match event {
        AssetEvent::Added { id } => Some(RenderAssetAction::Added { id }),
        AssetEvent::Loaded { id } => Some(RenderAssetAction::Added { id }),
        AssetEvent::Unloaded { id } => Some(RenderAssetAction::Removed { id }),
        AssetEvent::Modified { id } => Some(RenderAssetAction::Modified { id }),
        AssetEvent::Failed { id } => Some(RenderAssetAction::Removed { id }),
        AssetEvent::Imported { .. } => None,
    }
}

/// The actions a run of events calls for, in order.
pub open spec fn actions_for(events: Seq<AssetEvent>) -> Seq<RenderAssetAction>
    decreases events.len(),
{
    if events.len() == 0 {
        Seq::empty()
    } else {
        match spec_action_for(events.last()) {
            Some(a) => actions_for(events.drop_last()).push(a),
            None => actions_for(events.drop_last()),
        }
    }
}

/// Records the actions that `events` call for.
pub fn record_asset_events(actions: &mut RenderAssetActions, events: &[AssetEvent])
    ensures
        final(actions)@ == old(actions)@ + actions_for(events@),
{
    let mut i: usize = 0;
    while i < events.len()
        invariant
            i <= events@.len(),
            actions@ == old(actions)@ + actions_for(events@.subrange(0, i as int)),
        decreases events@.len() - i,
    {
        proof {
            assert(events@.subrange(0, i + 1).drop_last() =~= events@.subrange(0, i as int));
        }
        match action_for(events[i]) {
            Some(a) => {
                actions.add(a);
            },
            None => {},
        }
        i = i + 1;
        proof {
            assert(actions@ =~= old(actions)@ + actions_for(events@.subrange(0, i as int)));
        }
    }
    assert(events@.subrange(0, events@.len() as int) =~= events@);
}

/// The ids of the removed assets among `actions`, in order.
pub open spec fn removed_ids(actions: Seq<RenderAssetAction>) -> Seq<u128>
    decreases actions.len(),
{
    if actions.len() == 0 {
        Seq::empty()
    } else {
        match actions.last() {
            RenderAssetAction::Removed { id } => removed_ids(actions.drop_last()).push(id),
            _ => removed_ids(actions.drop_last()),
        }
    }
}

/// After extraction: hands out the ids of the sources to drop (those of
/// removed assets) and forgets all actions.
pub fn finish_actions(actions: &mut RenderAssetActions) -> (r: Vec<u128>)
    ensures
        r@ == removed_ids(old(actions)@),
        final(actions)@ == Seq::<RenderAssetAction>::empty(),
{
    let list = actions.iter();
    let mut ids: Vec<u128> = Vec::new();
    let mut i: usize = 0;
    while i < list.len()
        invariant
            i <= list@.len(),
            ids@ == removed_ids(list@.subrange(0, i as int)),
        decreases list@.len() - i,
    {
        proof {
            assert(list@.subrange(0, i + 1).drop_last() =~= list@.subrange(0, i as int));
        }
        match list[i] {
            RenderAssetAction::Removed { id } => {
                ids.push(id);
            },
            _ => {},
        }
        i = i + 1;
    }
    assert(list@.subrange(0, list@.len() as int) =~= list@);
    actions.clear();
    ids
}

/// Whether render targets changed so that the render graph must be resized:
/// some event that is not an import.
pub fn needs_graph_resize(events: &[AssetEvent]) -> (r: bool)
    ensures
        r == exists|i: int| 0 <= i < events@.len() && !(events@[i] is Imported),
{
    let mut i: usize = 0;
    while i < events.len()
        invariant
            i <= events@.len(),
            forall|j: int| 0 <= j < i ==> events@[j] is Imported,
        decreases events@.len() - i,
    {
        match events[i] {
            AssetEvent::Imported { .. } => {},
            _ => {
                return true;
            },
        }
        i = i + 1;
    }
    false
}

/// The step of an action acts on that action's asset: a removal always
/// removes the render asset, whatever exists; an addition extracts exactly
/// when the source exists; a change updates exactly when both the source
/// and the render asset exist; otherwise nothing is done.
pub proof fn lemma_extract_steps(id: u128, has_source: bool, has_target: bool)
    ensures
        spec_extract_step(RenderAssetAction::Removed { id }, has_source, has_target) == (ExtractStep::Remove { id }),
        (spec_extract_step(RenderAssetAction::Added { id }, has_source, has_target) == (ExtractStep::Extract { id }))
            == has_source,
        !has_source ==> spec_extract_step(RenderAssetAction::Added { id }, has_source, has_target) == ExtractStep::Skip,
        (spec_extract_step(RenderAssetAction::Modified { id }, has_source, has_target) == (ExtractStep::Update {
            id,
        })) == (has_source && has_target),
        !(has_source && has_target) ==> spec_extract_step(RenderAssetAction::Modified { id }, has_source, has_target)
            == ExtractStep::Skip,
{
}

} // verus!
