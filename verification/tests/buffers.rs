use graphics::buffer::{BufferArray, BufferArrayIndex, SliceBound};
use graphics::device::{DeviceCommand, Limits, RenderDevice};
use graphics::flags::BufferUsages;
use graphics::index::{IndexBuffer, Indices};
use graphics::storage::{RenderBufferArray, StorageBufferArray};
use graphics::uniform::UniformBufferArray;

fn limits(storage: u32) -> Limits {
    Limits {
        min_uniform_buffer_offset_alignment: 256,
        min_storage_buffer_offset_alignment: 256,
        max_uniform_buffer_binding_size: 65536,
        max_storage_buffers_per_shader_stage: storage,
    }
}

#[test]
fn uniform_array_offsets_are_aligned() {
    let mut array = UniformBufferArray::new_with_alignment(256);
    assert_eq!(array.push(&[1u8; 16]), 0);
    assert_eq!(array.push(&[2u8; 300]), 256);
    assert_eq!(array.push(&[3u8; 4]), 768);
    assert_eq!(array.data().len(), 772);
    assert_eq!(array.data()[256], 2);
    assert!(array.is_dirty());
}

#[test]
fn uniform_array_aligned_to_device_limit() {
    let array = UniformBufferArray::aligned(&limits(8), 64);
    assert_eq!(array.alignment(), 256);
    let wide = UniformBufferArray::aligned(&limits(8), 512);
    assert_eq!(wide.alignment(), 512);
}

#[test]
fn index_buffer_holds_four_bytes_per_index() {
    let mut device = RenderDevice::new(limits(8));
    let indices = Indices::new(vec![1u32, 2, 258]);
    let buffer = IndexBuffer::new(&mut device, &indices, BufferUsages::index(), None);
    assert_eq!(buffer.len(), 3);
    match device.commands().last().unwrap() {
        DeviceCommand::CreateBuffer { contents: Some(bytes), size, .. } => {
            let mut expected = Vec::new();
            for v in [1u32, 2, 258] {
                expected.extend_from_slice(&v.to_ne_bytes());
            }
            assert_eq!(bytes, &expected);
            assert_eq!(*size, 12);
        },
        _ => panic!("expected a buffer"),
    }
}

#[test]
fn short_index_buffer_holds_two_bytes_per_index() {
    let mut device = RenderDevice::new(limits(8));
    let indices = Indices::new(vec![7u16, 9, 11]);
    let _buffer = IndexBuffer::new(&mut device, &indices, BufferUsages::index(), None);
    match device.commands().last().unwrap() {
        DeviceCommand::CreateBuffer { contents: Some(bytes), size, .. } => {
            assert_eq!(bytes.len(), 6);
            assert_eq!(&bytes[0..2], &7u16.to_ne_bytes());
            assert_eq!(*size, 8);
        },
        _ => panic!("expected a buffer"),
    }
}

#[test]
fn buffer_array_push_returns_indices() {
    let mut array = BufferArray::new(BufferUsages::storage(), 4);
    assert_eq!(array.push(&[1, 2, 3, 4]), 0);
    assert_eq!(array.push(&[5, 6, 7, 8]), 1);
    assert_eq!(array.len(), 2);
    assert!(array.capacity() >= 2);
    array.truncate(1);
    assert_eq!(array.len(), 1);
}

#[test]
fn render_buffer_array_picks_storage_when_allowed() {
    let device = RenderDevice::new(limits(8));
    let mut array = RenderBufferArray::new(&device, BufferUsages::storage(), 16);
    assert!(matches!(array, RenderBufferArray::Storage(_)));
    assert!(array.is_empty());
    assert_eq!(array.push(vec![0u8; 16]), BufferArrayIndex::new(0, None));
    assert_eq!(array.push(vec![1u8; 16]), BufferArrayIndex::new(1, None));
    assert!(!array.is_empty());
    assert_eq!(array.usage(), BufferUsages::storage());
    assert!(array.buffer().is_none());
    let mut device = device;
    array.update(&mut device);
    assert!(array.buffer().is_some());
    assert!(array.binding().is_some());
}

#[test]
fn render_buffer_array_batches_without_storage() {
    let device = RenderDevice::new(limits(0));
    let mut array = RenderBufferArray::new(&device, BufferUsages::uniform(), 64);
    assert!(matches!(array, RenderBufferArray::Uniform(_)));
    assert_eq!(array.push(vec![0u8; 64]), BufferArrayIndex::new(0, Some(0)));
    assert_eq!(array.push(vec![0u8; 64]), BufferArrayIndex::new(1, Some(0)));
    assert!(array.label().is_none());
}

#[test]
fn full_batch_is_flushed_and_written_on_update() {
    let mut device = RenderDevice::new(limits(0));
    let mut array = RenderBufferArray::new(&device, BufferUsages::uniform(), 64);
    for k in 0..4u8 {
        assert_eq!(array.push(vec![k + 1; 64]), BufferArrayIndex::new(k as u32, Some(0)));
    }
    assert!(!array.is_empty());
    array.update(&mut device);
    match device.commands().last().unwrap() {
        DeviceCommand::CreateBuffer { id, contents: Some(bytes), size, .. } => {
            assert_eq!(*id, 1);
            assert_eq!(*size, 256);
            assert_eq!(bytes.len(), 256);
            assert_eq!(bytes[0], 1);
            assert_eq!(bytes[64], 2);
            assert_eq!(bytes[128], 3);
            assert_eq!(bytes[255], 4);
        },
        _ => panic!("expected a buffer"),
    }
    assert_eq!(device.commands().len(), 1);
}

#[test]
fn partial_batch_is_padded_on_update() {
    let mut device = RenderDevice::new(limits(0));
    let mut array = RenderBufferArray::new(&device, BufferUsages::uniform(), 64);
    array.push(vec![9u8; 64]);
    array.update(&mut device);
    match device.commands().last().unwrap() {
        DeviceCommand::CreateBuffer { contents: Some(bytes), .. } => {
            assert_eq!(bytes.len(), 256);
            assert_eq!(bytes[63], 9);
            assert_eq!(bytes[64], 0);
            assert_eq!(bytes[255], 0);
        },
        _ => panic!("expected a buffer"),
    }
    assert_eq!(array.push(vec![1u8; 64]), BufferArrayIndex::new(0, Some(0)));
}

#[test]
fn render_buffer_array_slices_its_buffer_once_created() {
    let mut device = RenderDevice::new(limits(0));
    let mut array = RenderBufferArray::new(&device, BufferUsages::uniform(), 64);
    assert!(array.slice(SliceBound::Unbounded, SliceBound::Unbounded).is_none());
    array.push(vec![1u8; 64]);
    array.update(&mut device);
    let s = array.slice(SliceBound::Included(64), SliceBound::Unbounded).unwrap();
    assert_eq!((s.buffer_id(), s.start(), s.end()), (1, 64, 256));
}

#[test]
fn batched_dynamic_offsets_are_aligned() {
    let device = RenderDevice::new(limits(0));
    let mut array = RenderBufferArray::new(&device, BufferUsages::uniform(), 32);
    for _ in 0..20 {
        let index = array.push(vec![0u8; 32]);
        assert_eq!(index.dynamic_offset.unwrap() % 256, 0);
    }
}

#[test]
fn storage_get_after_set_gives_the_value() {
    let mut array = StorageBufferArray::new(256);
    array.push(&[1u8; 256]);
    array.push(&[2u8; 256]);
    array.push(&[3u8; 256]);
    array.set(1, &[9u8; 256]);
    assert_eq!(array.get(1), vec![9u8; 256]);
    assert_eq!(array.get(0), vec![1u8; 256]);
    assert_eq!(array.get(2), vec![3u8; 256]);
    assert_eq!(array.data().len(), 768);
    assert!(array.is_dirty());
}
