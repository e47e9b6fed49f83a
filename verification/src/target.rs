use crate::device::{DeviceCommand, RenderDevice};
use crate::render_asset::RenderAssets;
use crate::render_texture::{RenderTexture, Sampler};
use crate::texture::{faces_fit, RenderTargetTexture, SamplerDescriptor, Texture, TextureFormat};
use vstd::prelude::*;

verus! {

/// A texture that passes render into, on the GPU: its size and format, and
/// the ids under which its colour texture and its sampler are stored.
#[derive(Clone, Copy, PartialEq, Eq, Structural, Debug)]
pub struct RenderTarget {
    pub width: u32,
    pub height: u32,
    pub format: TextureFormat,
    pub color: u128,
    pub sampler: u128,
}

/// The sampler of a render target: the target's wrap and filter modes and
/// the defaults for the rest (no comparison, anisotropy 1, no border colour).
pub open spec fn target_sampler(source: &RenderTargetTexture) -> SamplerDescriptor {
    SamplerDescriptor {
        label: None,
        wrap_mode: source.spec_wrap_mode(),
        filter_mode: source.spec_filter_mode(),
        compare: None,
        anisotropy_clamp: 1,
        border_color: None,
    }
}

/// Creates the render target of the asset `id`: its colour texture, stored
/// in `textures` under `id`, and its sampler, stored in `samplers` under `id`.
pub fn extract_render_target(
    device: &mut RenderDevice,
    id: u128,
    source: &RenderTargetTexture,
    textures: &mut RenderAssets<RenderTexture>,
    samplers: &mut RenderAssets<Sampler>,
) -> (r: RenderTarget)
    requires
        faces_fit(source),
        old(device)@.next_id + 3 <= u64::MAX,
    ensures
        r == (RenderTarget {
            width: source.spec_width(),
            height: source.spec_height(),
            format: source.spec_format(),
            color: id,
            sampler: id,
        }),
        final(device)@.next_id == old(device)@.next_id + 3,
        final(textures)@.contains_key(id),
        final(textures)@[id].spec_texture() == Some(old(device)@.next_id),
        final(textures)@[id].spec_view() == old(device)@.next_id + 1,
        final(textures)@.remove(id) == old(textures)@.remove(id),
        final(samplers)@.contains_key(id),
        final(samplers)@[id].spec_id() == old(device)@.next_id + 2,
        final(samplers)@.remove(id) == old(samplers)@.remove(id),
        final(device)@.commands.last() == (DeviceCommand::CreateSampler {
            id: (old(device)@.next_id + 2) as u64,
            desc: target_sampler(source),
        }),
{
    let color = RenderTexture::create(device, source);
    let desc = SamplerDescriptor {
        label: None,
        wrap_mode: source.wrap_mode(),
        filter_mode: source.filter_mode(),
        compare: None,
        anisotropy_clamp: 1,
        border_color: None,
    };
    let sampler = Sampler::create(device, &desc);
    textures.add(id, color);
    samplers.add(id, sampler);
    proof {
        assert(final_remove_same(old(textures)@, textures@, id));
        assert(final_remove_same(old(samplers)@, samplers@, id));
    }
    RenderTarget {
        width: source.width(),
        height: source.height(),
        format: source.format(),
        color: id,
        sampler: id,
    }
}

/// Inserting under `id` leaves the other keys as they were.
spec fn final_remove_same<V>(before: Map<u128, V>, after: Map<u128, V>, id: u128) -> bool {
    after.remove(id) =~= before.remove(id)
}

/// Drops the render target of the asset `id`, with its colour texture and
/// its sampler.
pub fn remove_render_target(
    id: u128,
    assets: &mut RenderAssets<RenderTarget>,
    textures: &mut RenderAssets<RenderTexture>,
    samplers: &mut RenderAssets<Sampler>,
)
    ensures
        final(assets)@ == old(assets)@.remove(id),
        old(assets)@.contains_key(id) ==> final(textures)@ == old(textures)@.remove(old(assets)@[id].color)
            && final(samplers)@ == old(samplers)@.remove(old(assets)@[id].sampler),
        !old(assets)@.contains_key(id) ==> final(textures)@ == old(textures)@ && final(samplers)@ == old(samplers)@,
{
    match assets.remove(id) {
        Some(target) => {
            textures.remove(target.color);
            samplers.remove(target.sampler);
        },
        None => {},
    }
}

/// The larger of two sizes, comparing widths first and heights on a tie.
pub open spec fn size_max(a: (u32, u32), b: (u32, u32)) -> (u32, u32) {
    if a.0 > b.0 || (a.0 == b.0 && a.1 > b.1) {
        a
    } else {
        b
    }
}

/// The smaller of two sizes, comparing widths first and heights on a tie.
pub open spec fn size_min(a: (u32, u32), b: (u32, u32)) -> (u32, u32) {
    if a.0 < b.0 || (a.0 == b.0 && a.1 <= b.1) {
        a
    } else {
        b
    }
}

/// The sizes of the targets folded with `size_max` from (0, 0).
pub open spec fn fold_max(targets: Seq<RenderTarget>) -> (u32, u32)
    decreases targets.len(),
{
    if targets.len() == 0 {
        (0, 0)
    } else {
        size_max(fold_max(targets.drop_last()), (targets.last().width, targets.last().height))
    }
}

/// The sizes of the targets folded with `size_min` from (0, 0).
pub open spec fn fold_min(targets: Seq<RenderTarget>) -> (u32, u32)
    decreases targets.len(),
{
    if targets.len() == 0 {
        (0, 0)
    } else {
        size_min(fold_min(targets.drop_last()), (targets.last().width, targets.last().height))
    }
}

/// Folding from (0, 0) with the smaller size stays at (0, 0).
pub proof fn lemma_fold_min_zero(targets: Seq<RenderTarget>)
    ensures
        fold_min(targets) == (0u32, 0u32),
    decreases targets.len(),
{
    if targets.len() > 0 {
        lemma_fold_min_zero(targets.drop_last());
    }
}

/// The largest size of the targets, widths compared first; (0, 0) for none.
pub fn max_size(targets: &RenderAssets<RenderTarget>) -> (r: (u32, u32))
    ensures
        r == fold_max(targets.value_seq()),
{
    let values = targets.values();
    let mut acc: (u32, u32) = (0, 0);
    let mut i: usize = 0;
    while i < values.len()
        invariant
            i <= values@.len(),
            values@ == targets.value_seq(),
            acc == fold_max(values@.subrange(0, i as int)),
        decreases values@.len() - i,
    {
        proof {
            assert(values@.subrange(0, i + 1).drop_last() =~= values@.subrange(0, i as int));
        }
        let t = values[i];
        let size = (t.width, t.height);
        if !(acc.0 > size.0 || (acc.0 == size.0 && acc.1 > size.1)) {
            acc = size;
        }
        i = i + 1;
    }
    proof {
        assert(values@.subrange(0, i as int) =~= values@);
    }
    acc
}

/// The smallest size of the targets folded from (0, 0): always (0, 0).
pub fn min_size(targets: &RenderAssets<RenderTarget>) -> (r: (u32, u32))
    ensures
        r == fold_min(targets.value_seq()),
        r == (0u32, 0u32),
{
    let values = targets.values();
    let mut acc: (u32, u32) = (0, 0);
    let mut i: usize = 0;
    while i < values.len()
        invariant
            i <= values@.len(),
            values@ == targets.value_seq(),
            acc == fold_min(values@.subrange(0, i as int)),
        decreases values@.len() - i,
    {
        proof {
            assert(values@.subrange(0, i + 1).drop_last() =~= values@.subrange(0, i as int));
        }
        let t = values[i];
        let size = (t.width, t.height);
        if !(acc.0 < size.0 || (acc.0 == size.0 && acc.1 <= size.1)) {
            acc = size;
        }
        i = i + 1;
    }
    proof {
        assert(values@.subrange(0, i as int) =~= values@);
        lemma_fold_min_zero(values@);
    }
    acc
}

} // verus!
