use crate::buffer::{clone_label, spec_end, spec_padded_size, spec_start, Buffer, BufferSlice, BufferSliceId, BufferView, SliceBound};
use crate::device::{DeviceCommand, RenderDevice};
use crate::flags::BufferUsages;
use vstd::prelude::*;

verus! {

/// The abstract state of a vertex buffer.
pub struct VertexBufferView {
    pub buffer: Option<BufferView>,
    pub usage: BufferUsages,
    pub len: usize,
}

/// A GPU buffer of vertices (as their bytes), created once there are any.
pub struct VertexBuffer {
    inner: Option<Buffer>,
    usage: BufferUsages,
    len: usize,
}

impl View for VertexBuffer {
    type V = VertexBufferView;

    closed spec fn view(&self) -> VertexBufferView {
        VertexBufferView { buffer: crate::buffer::opt_view(self.inner), usage: self.usage, len: self.len }
    }
}

impl VertexBuffer {
    /// Holds `count` vertices whose bytes are `data`. The buffer's usage is
    /// the given one plus `INDEX`; it is created only when there are vertices.
    pub fn new(device: &mut RenderDevice, data: &[u8], count: usize, usage: Option<BufferUsages>) -> (r: VertexBuffer)
        requires
            old(device)@.next_id < u64::MAX,
            data@.len() + 3 <= u64::MAX,
        ensures
            r@.len == count,
            r@.usage.bits == match usage {
                Some(u) => u.bits | 16,
                None => 16,
            },
            count == 0 ==> r@.buffer is None && final(device)@ == old(device)@,
            count > 0 ==> r@.buffer == Some(
                BufferView {
                    id: old(device)@.next_id,
                    label: None,
                    size: spec_padded_size(data@.len() as int) as u64,
                    usage: r@.usage,
                },
            ) && crate::buffer::allocated_one(old(device)@, final(device)@) && crate::buffer::create_command_matches(
                final(device)@.commands.last(),
                r@.buffer.unwrap(),
                Some(data@),
            ),
    {
        let usage = match usage {
            Some(u) => u.union(BufferUsages::index()),
            None => BufferUsages::index(),
        };
        let inner = if count > 0 {
            Some(Buffer::with_data(device, data, usage, None))
        } else {
            None
        };
        VertexBuffer { inner, usage, len: count }
    }

    pub fn buffer(&self) -> (r: Option<&Buffer>)
        ensures
            match r {
                Some(b) => self@.buffer == Some(b@),
                None => self@.buffer is None,
            },
    {
        match &self.inner {
            Some(b) => Some(b),
            None => None,
        }
    }

    /// A slice of the buffer between two byte bounds, if there is a buffer.
    pub fn slice(&self, start: SliceBound, end: SliceBound) -> (r: Option<BufferSlice>)
        requires
            start matches SliceBound::Excluded(s) ==> s < u64::MAX,
            end matches SliceBound::Included(e) ==> e < u64::MAX,
        ensures
            match self@.buffer {
                Some(b) => r matches Some(s) && s@ == (BufferSliceId {
                    id: b.id,
                    start: spec_start(start),
                    end: spec_end(end, b.size),
                }),
                None => r is None,
            },
    {
        match &self.inner {
            Some(b) => Some(b.slice(start, end)),
            None => None,
        }
    }

    pub fn len(&self) -> (r: usize)
        ensures
            r == self@.len,
    {
        self.len
    }

    /// Replaces the vertices with `count` vertices whose bytes are `data`.
    /// With none, the buffer is dropped. Without a buffer, one is created.
    /// When the bytes outgrow the buffer, it is recreated with its usage;
    /// otherwise they are written into it, and the count is left as it was.
    pub fn update(&mut self, device: &mut RenderDevice, data: &[u8], count: usize)
        requires
            old(device)@.next_id < u64::MAX,
            data@.len() + 3 <= u64::MAX,
        ensures
            final(self)@.usage == old(self)@.usage,
            count == 0 ==> final(self)@.buffer is None && final(self)@.len == 0 && final(device)@ == old(device)@,
            count > 0 ==> match old(self)@.buffer {
                Some(b) => if data@.len() > b.size {
                    &&& final(self)@.len == count
                    &&& final(self)@.buffer == Some(
                        BufferView {
                            id: old(device)@.next_id,
                            label: None,
                            size: spec_padded_size(data@.len() as int) as u64,
                            usage: b.usage,
                        },
                    )
                    &&& crate::buffer::allocated_one(old(device)@, final(device)@)
                    &&& crate::buffer::create_command_matches(
                        final(device)@.commands.last(),
                        final(self)@.buffer.unwrap(),
                        Some(data@),
                    )
                } else {
                    &&& final(self)@ == old(self)@
                    &&& crate::buffer::recorded_one(old(device)@, final(device)@)
                    &&& final(device)@.commands.last() matches DeviceCommand::WriteBuffer { id, offset, data: d }
                        && id == b.id && offset == 0 && d@ == data@
                },
                None => {
                    &&& final(self)@.len == count
                    &&& final(self)@.buffer == Some(
                        BufferView {
                            id: old(device)@.next_id,
                            label: None,
                            size: spec_padded_size(data@.len() as int) as u64,
                            usage: old(self)@.usage,
                        },
                    )
                    &&& crate::buffer::allocated_one(old(device)@, final(device)@)
                    &&& crate::buffer::create_command_matches(
                        final(device)@.commands.last(),
                        final(self)@.buffer.unwrap(),
                        Some(data@),
                    )
                },
            },
    {
        if count > 0 {
            match &self.inner {
                Some(buffer) => {
                    if data.len() as u64 > buffer.size() {
                        let usage = buffer.usage();
                        self.inner = Some(Buffer::with_data(device, data, usage, None));
                        self.len = count;
                    } else {
                        let bytes = crate::bytes::prefix(data, data.len());
                        assert(bytes@ =~= data@);
                        device.submit(DeviceCommand::WriteBuffer { id: buffer.id(), offset: 0, data: bytes });
                    }
                },
                None => {
                    self.inner = Some(Buffer::with_data(device, data, self.usage, None));
                    self.len = count;
                },
            }
        } else {
            self.inner = None;
            self.len = 0;
        }
    }
}

} // verus!
