use graphics::asset::{RenderAssetAction, RenderAssetActions};
use graphics::device::{DeviceCommand, Limits, RenderDevice};
use graphics::extract::{finish_actions, needs_graph_resize, record_asset_events, AssetEvent};
use graphics::handle::{Handle, Id};
use graphics::render_asset::RenderAssets;
use graphics::render_texture::{RenderTexture, Sampler};
use graphics::target::{extract_render_target, max_size, min_size, remove_render_target, RenderTarget};
use graphics::texture::{FilterMode, RenderTargetTexture, TextureFormat, WrapMode};

fn device() -> RenderDevice {
    RenderDevice::new(Limits {
        min_uniform_buffer_offset_alignment: 256,
        min_storage_buffer_offset_alignment: 256,
        max_uniform_buffer_binding_size: 65536,
        max_storage_buffers_per_shader_stage: 8,
    })
}

#[test]
fn render_assets_keep_first_insertion_order() {
    let mut assets: RenderAssets<u32> = RenderAssets::new();
    assets.add(5, 50);
    assets.add(3, 30);
    assets.add(5, 55);
    assert_eq!(assets.ids(), &[5, 3]);
    assert_eq!(assets.values(), &[55, 30]);
    assert_eq!(assets.get(5), Some(&55));
    assert_eq!(*assets.index(1), 30);
    assert_eq!(assets.len(), 2);
    assert_eq!(assets.remove(5), Some(55));
    assert_eq!(assets.remove(5), None);
    assert_eq!(assets.ids(), &[3]);
    assert!(assets.contains(3));
    assets.clear();
    assert!(assets.is_empty());
}

#[test]
fn named_ids_hash_the_name_with_crc32() {
    let id: Id<u8> = Id::from_name("main");
    let mut hasher = crc32fast::Hasher::new();
    std::hash::Hash::hash("main", &mut hasher);
    assert_eq!(id.id(), std::hash::Hasher::finish(&hasher) as u128);
    assert_ne!(id.id(), crc32fast::hash(b"main") as u128);
    assert!(id.id() <= u32::MAX as u128);
    let other: Id<u16> = id.to();
    assert_eq!(other.id(), id.id());
}

#[test]
fn generated_ids_are_version_four() {
    let a: Id<u8> = Id::generate();
    let b: Id<u8> = Id::generate();
    assert_eq!((a.id() >> 76) & 15, 4);
    assert_eq!((a.id() >> 62) & 3, 2);
    assert!(!a.same(&b));
}

#[test]
fn handles_give_id_or_value() {
    let by_id: Handle<u32> = Handle::Ref(Id::new(7));
    assert_eq!(by_id.id().map(|i| i.id()), Some(7));
    assert!(by_id.owned().is_none());
    let owned: Handle<u32> = Handle::Owned(9);
    assert_eq!(owned.owned(), Some(&9));
    assert!(owned.id().is_none());
}

#[test]
fn render_target_extract_and_remove() {
    let mut device = device();
    let mut textures: RenderAssets<RenderTexture> = RenderAssets::new();
    let mut samplers: RenderAssets<Sampler> = RenderAssets::new();
    let source = RenderTargetTexture::new(
        320,
        200,
        TextureFormat::Rgba8Unorm,
        TextureFormat::Depth32Float,
        FilterMode::Nearest,
        WrapMode::Repeat,
    );
    let target = extract_render_target(&mut device, 77, &source, &mut textures, &mut samplers);
    assert_eq!(target, RenderTarget { width: 320, height: 200, format: TextureFormat::Rgba8Unorm, color: 77, sampler: 77 });
    assert_eq!(textures.get(77).unwrap().texture(), Some(1));
    assert_eq!(textures.get(77).unwrap().view(), 2);
    assert_eq!(samplers.get(77).unwrap().inner(), 3);
    match device.commands().last().unwrap() {
        DeviceCommand::CreateSampler { id, desc } => {
            assert_eq!(*id, 3);
            assert_eq!(desc.wrap_mode, WrapMode::Repeat);
            assert_eq!(desc.filter_mode, FilterMode::Nearest);
            assert_eq!(desc.anisotropy_clamp, 1);
        },
        _ => panic!("expected a sampler"),
    }
    let mut targets: RenderAssets<RenderTarget> = RenderAssets::new();
    targets.add(77, target);
    remove_render_target(77, &mut targets, &mut textures, &mut samplers);
    assert!(targets.is_empty() && textures.is_empty() && samplers.is_empty());
    remove_render_target(77, &mut targets, &mut textures, &mut samplers);
}

fn target(width: u32, height: u32) -> RenderTarget {
    RenderTarget { width, height, format: TextureFormat::Rgba8Unorm, color: 0, sampler: 0 }
}

#[test]
fn target_sizes_compare_widths_first() {
    let mut targets: RenderAssets<RenderTarget> = RenderAssets::new();
    assert_eq!(max_size(&targets), (0, 0));
    targets.add(1, target(800, 100));
    targets.add(2, target(640, 900));
    targets.add(3, target(800, 50));
    assert_eq!(max_size(&targets), (800, 100));
    assert_eq!(min_size(&targets), (0, 0));
}

#[test]
fn asset_events_become_actions() {
    let mut actions = RenderAssetActions::new();
    let events = [
        AssetEvent::Added { id: 1 },
        AssetEvent::Imported { id: 2 },
        AssetEvent::Modified { id: 3 },
        AssetEvent::Unloaded { id: 4 },
        AssetEvent::Failed { id: 5 },
        AssetEvent::Loaded { id: 6 },
    ];
    record_asset_events(&mut actions, &events);
    assert_eq!(
        actions.iter(),
        &[
            RenderAssetAction::Added { id: 1 },
            RenderAssetAction::Modified { id: 3 },
            RenderAssetAction::Removed { id: 4 },
            RenderAssetAction::Removed { id: 5 },
            RenderAssetAction::Added { id: 6 },
        ]
    );
    assert_eq!(finish_actions(&mut actions), vec![4, 5]);
    assert_eq!(actions.len(), 0);
    assert!(needs_graph_resize(&events));
    assert!(!needs_graph_resize(&[AssetEvent::Imported { id: 1 }]));
}

#[test]
fn actions_come_out_in_the_order_added() {
    let mut actions = RenderAssetActions::new();
    actions.add(RenderAssetAction::Added { id: 1 });
    actions.add(RenderAssetAction::Modified { id: 1 });
    actions.add(RenderAssetAction::Removed { id: 2 });
    assert_eq!(actions.iter().len(), actions.len());
    assert_eq!(
        actions.iter(),
        &[RenderAssetAction::Added { id: 1 }, RenderAssetAction::Modified { id: 1 }, RenderAssetAction::Removed { id: 2 }]
    );
    actions.extend(vec![RenderAssetAction::Added { id: 5 }]);
    assert_eq!(actions.len(), 4);
    actions.retain(|a| matches!(a, RenderAssetAction::Added { .. }));
    assert_eq!(actions.len(), 2);
    actions.clear();
    assert_eq!(actions.len(), 0);
}
