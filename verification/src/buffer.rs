use crate::binding::BindingResource;
use crate::bytes::{prefix, spec_write_at};
use crate::device::{DeviceCommand, Label, RenderDevice};
use crate::flags::BufferUsages;
use vstd::prelude::*;

verus! {

/// A copy of a label.
pub fn clone_label(label: &Label) -> (r: Label)
    ensures
        r == *label,
{
    match label {
        Some(s) => Some(s.clone()),
        None => None,
    }
}

/// The size the device gives a buffer created with `len` initial bytes:
/// 0 for none, else `len` rounded up to a multiple of 4.
pub open spec fn spec_padded_size(len: int) -> int {
    if len == 0 {
        0
    } else {
        ((len + 3) / 4) * 4
    }
}

/// The abstract state of a GPU buffer.
pub struct BufferView {
    pub id: u64,
    pub label: Label,
    pub size: u64,
    pub usage: BufferUsages,
}

/// A GPU buffer: its device id, label, size in bytes and usage.
pub struct Buffer {
    id: u64,
    label: Label,
    size: u64,
    usage: BufferUsages,
}

impl View for Buffer {
    type V = BufferView;

    closed spec fn view(&self) -> BufferView {
        BufferView { id: self.id, label: self.label, size: self.size, usage: self.usage }
    }
}

/// The device state after one object was created with `command`.
pub open spec fn created(
    before: crate::device::DeviceView,
    after: crate::device::DeviceView,
    command: DeviceCommand,
) -> bool {
    &&& after.next_id == before.next_id + 1
    &&& after.limits == before.limits
    &&& after.commands == before.commands.push(command)
}

/// The device command that creates the buffer `b`, filled with `contents`.
pub open spec fn create_command_matches(c: DeviceCommand, b: BufferView, contents: Option<Seq<u8>>) -> bool {
    c matches DeviceCommand::CreateBuffer { id, size, usage, label, contents: cs }
        && id == b.id && size == b.size && usage == b.usage && label == b.label && match contents {
        Some(bytes) => cs matches Some(v) && v@ == bytes,
        None => cs is None,
    }
}

/// The device state after one command was recorded, with nothing else changed.
pub open spec fn recorded_one(before: crate::device::DeviceView, after: crate::device::DeviceView) -> bool {
    &&& after.next_id == before.next_id
    &&& after.limits == before.limits
    &&& after.commands == before.commands.push(after.commands.last())
}

/// The device state after one object was created, with one command recorded.
pub open spec fn allocated_one(before: crate::device::DeviceView, after: crate::device::DeviceView) -> bool {
    &&& after.next_id == before.next_id + 1
    &&& after.limits == before.limits
    &&& after.commands == before.commands.push(after.commands.last())
}

impl Buffer {
    /// Creates an uninitialised buffer of `size` bytes.
    pub fn new(device: &mut RenderDevice, size: u64, usage: BufferUsages, label: Label) -> (r: Buffer)
        requires
            old(device)@.next_id < u64::MAX,
        ensures
            r@.id == old(device)@.next_id,
            r@.size == size,
            r@.usage == usage,
            r@.label == label,
            allocated_one(old(device)@, final(device)@),
            create_command_matches(final(device)@.commands.last(), r@, None),
    {
        let id = device.allocate_id();
        let l = clone_label(&label);
        device.submit(DeviceCommand::CreateBuffer { id, size, usage, label: l, contents: None });
        Buffer { id, label, size, usage }
    }

    /// Creates a buffer holding `data`; its size is `data`'s length padded to 4 bytes.
    pub fn with_data(device: &mut RenderDevice, data: &[u8], usage: BufferUsages, label: Label) -> (r: Buffer)
        requires
            old(device)@.next_id < u64::MAX,
            data@.len() + 3 <= u64::MAX,
        ensures
            r@.id == old(device)@.next_id,
            r@.size == spec_padded_size(data@.len() as int),
            r@.usage == usage,
            r@.label == label,
            allocated_one(old(device)@, final(device)@),
            create_command_matches(final(device)@.commands.last(), r@, Some(data@)),
    {
        let id = device.allocate_id();
        let len = data.len() as u64;
        let size = if len == 0 { 0 } else { ((len + 3) / 4) * 4 };
        let l = clone_label(&label);
        let contents = prefix(data, data.len());
        assert(contents@ =~= data@);
        device.submit(DeviceCommand::CreateBuffer { id, size, usage, label: l, contents: Some(contents) });
        Buffer { id, label, size, usage }
    }

    pub fn id(&self) -> (r: u64)
        ensures
            r == self@.id,
    {
        self.id
    }

    /// The id of the object on the device.
    pub fn inner(&self) -> (r: u64)
        ensures
            r == self@.id,
    {
        self.id
    }

    pub fn label(&self) -> (r: &Label)
        ensures
            *r == self@.label,
    {
        &self.label
    }

    pub fn size(&self) -> (r: u64)
        ensures
            r == self@.size,
    {
        self.size
    }

    pub fn usage(&self) -> (r: BufferUsages)
        ensures
            r == self@.usage,
    {
        self.usage
    }

    /// Recreates the buffer (same id, label and usage) with `size` bytes,
    /// unless it already has that size.
    pub fn resize(&mut self, device: &mut RenderDevice, size: u64)
        ensures
            final(self)@.id == old(self)@.id,
            final(self)@.label == old(self)@.label,
            final(self)@.usage == old(self)@.usage,
            final(self)@.size == size,
            size == old(self)@.size ==> final(device)@ == old(device)@,
            size != old(self)@.size ==> recorded_one(old(device)@, final(device)@)
                && create_command_matches(final(device)@.commands.last(), final(self)@, None),
    {
        if size != self.size {
            let l = clone_label(&self.label);
            device.submit(DeviceCommand::CreateBuffer { id: self.id, size, usage: self.usage, label: l, contents: None });
            self.size = size;
        }
    }

    /// Writes `data` at `offset`, cut to the first `min(offset + len, size)` bytes.
    pub fn update(&self, device: &mut RenderDevice, offset: u64, data: &[u8])
        requires
            offset + data@.len() <= u64::MAX,
            vstd::math::min(offset + data@.len(), self@.size as int) <= data@.len(),
        ensures
            recorded_one(old(device)@, final(device)@),
            final(device)@.commands.last() matches DeviceCommand::WriteBuffer { id, offset: o, data: d }
                && id == self@.id && o == offset && d@ == data@.subrange(
                0,
                vstd::math::min(offset + data@.len(), self@.size as int),
            ),
    {
        let end = offset + data.len() as u64;
        let size = if end < self.size { end } else { self.size };
        let bytes = prefix(data, size as usize);
        device.submit(DeviceCommand::WriteBuffer { id: self.id, offset, data: bytes });
    }

    /// A slice of the buffer between two bounds.
    pub fn slice(&self, start: SliceBound, end: SliceBound) -> (r: BufferSlice)
        requires
            start matches SliceBound::Excluded(s) ==> s < u64::MAX,
            end matches SliceBound::Included(e) ==> e < u64::MAX,
        ensures
            r@ == (BufferSliceId {
                id: self@.id,
                start: spec_start(start),
                end: spec_end(end, self@.size),
            }),
    {
        BufferSlice::new(self, start, end)
    }

    /// Binds all of the buffer.
    pub fn as_entire_binding(&self) -> (r: BindingResource)
        ensures
            r == (BindingResource::Buffer { id: self@.id, offset: 0, size: None }),
    {
        BindingResource::Buffer { id: self.id, offset: 0, size: None }
    }

    /// Binds all of the buffer.
    pub fn as_entire_buffer_binding(&self) -> (r: BufferBinding)
        ensures
            r == (BufferBinding { buffer: self@.id, offset: 0, size: None }),
    {
        BufferBinding { buffer: self.id, offset: 0, size: None }
    }
}

/// A range of a buffer used as a binding.
#[derive(Clone, Copy, PartialEq, Eq, Structural, Debug)]
pub struct BufferBinding {
    pub buffer: u64,
    pub offset: u64,
    pub size: Option<u64>,
}

/// One end of a byte range.
#[derive(Clone, Copy, PartialEq, Eq, Structural, Debug)]
pub enum SliceBound {
    Included(u64),
    Excluded(u64),
    Unbounded,
}

/// The first byte a slice starts at.
pub open spec fn spec_start(start: SliceBound) -> u64 {
    match start {
        SliceBound::Included(s) => s,
        SliceBound::Excluded(s) => (s + 1) as u64,
        SliceBound::Unbounded => 0,
    }
}

/// The byte a slice ends before.
pub open spec fn spec_end(end: SliceBound, size: u64) -> u64 {
    match end {
        SliceBound::Included(e) => (e + 1) as u64,
        SliceBound::Excluded(e) => e,
        SliceBound::Unbounded => size,
    }
}

/// What identifies a buffer slice: the buffer and the byte range.
#[derive(Clone, Copy, PartialEq, Eq, Structural, Debug)]
pub struct BufferSliceId {
    pub id: u64,
    pub start: u64,
    pub end: u64,
}

/// A byte range of a buffer.
#[derive(Clone, Copy, PartialEq, Eq, Structural, Debug)]
pub struct BufferSlice {
    id: u64,
    start: u64,
    end: u64,
}

impl View for BufferSlice {
    type V = BufferSliceId;

    closed spec fn view(&self) -> BufferSliceId {
        BufferSliceId { id: self.id, start: self.start, end: self.end }
    }
}

impl BufferSlice {
    fn new(buffer: &Buffer, start: SliceBound, end: SliceBound) -> (r: BufferSlice)
        requires
            start matches SliceBound::Excluded(s) ==> s < u64::MAX,
            end matches SliceBound::Included(e) ==> e < u64::MAX,
        ensures
            r@ == (BufferSliceId {
                id: buffer@.id,
                start: spec_start(start),
                end: spec_end(end, buffer@.size),
            }),
    {
        let s = match start {
            SliceBound::Included(s) => s,
            SliceBound::Excluded(s) => s + 1,
            SliceBound::Unbounded => 0,
        };
        let e = match end {
            SliceBound::Included(e) => e + 1,
            SliceBound::Excluded(e) => e,
            SliceBound::Unbounded => buffer.size(),
        };
        BufferSlice { id: buffer.id(), start: s, end: e }
    }

    pub fn buffer_id(&self) -> (r: u64)
        ensures
            r == self@.id,
    {
        self.id
    }

    pub fn id(&self) -> (r: BufferSliceId)
        ensures
            r == self@,
    {
        BufferSliceId { id: self.id, start: self.start, end: self.end }
    }

    pub fn start(&self) -> (r: u64)
        ensures
            r == self@.start,
    {
        self.start
    }

    pub fn end(&self) -> (r: u64)
        ensures
            r == self@.end,
    {
        self.end
    }
}

/// Where a value was put in a buffer array: its index and, for dynamically
/// bound arrays, the byte offset of its batch.
#[derive(Clone, Copy, PartialEq, Eq, Structural, Debug)]
pub struct BufferArrayIndex {
    pub index: u32,
    pub dynamic_offset: Option<u32>,
}

impl BufferArrayIndex {
    pub fn new(index: u32, dynamic_offset: Option<u32>) -> (r: BufferArrayIndex)
        ensures
            r == (BufferArrayIndex { index, dynamic_offset }),
    {
        BufferArrayIndex { index, dynamic_offset }
    }
}


/// How a buffer holding `data` stands after it was brought up to date: it is
/// recreated (with a fresh id) when its size differs from `data`'s length,
/// written when it is dirty, and created when there is none.
pub open spec fn buffer_synced(
    buffer: Option<BufferView>,
    new_buffer: Option<BufferView>,
    data: Seq<u8>,
    dirty: bool,
    label: Label,
    usage: BufferUsages,
    before: crate::device::DeviceView,
    after: crate::device::DeviceView,
) -> bool {
    match buffer {
        Some(b) => if data.len() != (b.size as usize) {
            &&& new_buffer == Some(
                BufferView { id: before.next_id, label, size: spec_padded_size(data.len() as int) as u64, usage },
            )
            &&& allocated_one(before, after)
            &&& create_command_matches(after.commands.last(), new_buffer.unwrap(), Some(data))
        } else if dirty {
            &&& new_buffer == buffer
            &&& recorded_one(before, after)
            &&& after.commands.last() matches DeviceCommand::WriteBuffer { id, offset, data: d }
                && id == b.id && offset == 0 && d@ == data
        } else {
            new_buffer == buffer && after == before
        },
        None => {
            &&& new_buffer == Some(
                BufferView { id: before.next_id, label, size: spec_padded_size(data.len() as int) as u64, usage },
            )
            &&& allocated_one(before, after)
            &&& create_command_matches(after.commands.last(), new_buffer.unwrap(), Some(data))
        },
    }
}

/// The abstract state of a buffer array.
pub struct BufferArrayView {
    pub label: Label,
    pub data: Seq<u8>,
    pub buffer: Option<BufferView>,
    pub element_size: usize,
    pub usage: BufferUsages,
    pub is_dirty: bool,
}

/// The view of an optional buffer.
pub open spec fn opt_view(b: Option<Buffer>) -> Option<BufferView> {
    match b {
        Some(x) => Some(x@),
        None => None,
    }
}

/// A growable array of fixed-size elements, kept as bytes, with the GPU
/// buffer that mirrors it.
pub struct BufferArray {
    label: Label,
    data: Vec<u8>,
    buffer: Option<Buffer>,
    element_size: usize,
    usage: BufferUsages,
    is_dirty: bool,
}

impl View for BufferArray {
    type V = BufferArrayView;

    closed spec fn view(&self) -> BufferArrayView {
        BufferArrayView {
            label: self.label,
            data: self.data@,
            buffer: opt_view(self.buffer),
            element_size: self.element_size,
            usage: self.usage,
            is_dirty: self.is_dirty,
        }
    }
}

impl BufferArray {
    #[verifier::type_invariant]
    spec fn inv(&self) -> bool {
        &&& self.element_size > 0
        &&& self.data@.len() as int % (self.element_size as int) == 0
    }

    /// An empty array of elements of `element_size` bytes.
    pub fn new(usage: BufferUsages, element_size: usize) -> (r: BufferArray)
        requires
            element_size > 0,
        ensures
            r@ == (BufferArrayView {
                label: None,
                data: Seq::empty(),
                buffer: None,
                element_size,
                usage,
                is_dirty: false,
            }),
    {
        proof {
            vstd::arithmetic::div_mod::lemma_small_mod(0, element_size as nat);
        }
        BufferArray { label: None, data: Vec::new(), buffer: None, element_size, usage, is_dirty: false }
    }

    pub fn with_label(self, label: Label) -> (r: BufferArray)
        ensures
            r@ == (BufferArrayView { label, ..self@ }),
    {
        proof {
            use_type_invariant(&self);
        }
        let mut s = self;
        s.label = label;
        s
    }

    pub fn label(&self) -> (r: &Label)
        ensures
            *r == self@.label,
    {
        &self.label
    }

    pub fn buffer(&self) -> (r: Option<&Buffer>)
        ensures
            match r {
                Some(b) => self@.buffer == Some(b@),
                None => self@.buffer is None,
            },
    {
        match &self.buffer {
            Some(b) => Some(b),
            None => None,
        }
    }

    /// Binds all of the GPU buffer, once there is one.
    pub fn binding(&self) -> (r: Option<BindingResource>)
        ensures
            match self@.buffer {
                Some(b) => r == Some(BindingResource::Buffer { id: b.id, offset: 0, size: None }),
                None => r is None,
            },
    {
        match &self.buffer {
            Some(b) => Some(b.as_entire_binding()),
            None => None,
        }
    }

    pub fn element_size(&self) -> (r: usize)
        ensures
            r == self@.element_size,
    {
        self.element_size
    }

    pub fn usage(&self) -> (r: BufferUsages)
        ensures
            r == self@.usage,
    {
        self.usage
    }

    pub fn is_dirty(&self) -> (r: bool)
        ensures
            r == self@.is_dirty,
    {
        self.is_dirty
    }

    /// Number of elements.
    pub fn len(&self) -> (r: usize)
        ensures
            r == self@.data.len() as int / (self@.element_size as int),
    {
        proof {
            use_type_invariant(self);
        }
        self.data.len() / self.element_size
    }

    pub fn is_empty(&self) -> (r: bool)
        ensures
            r == (self@.data.len() == 0),
    {
        self.data.len() == 0
    }

    /// Number of elements the array holds without reallocating; at least its length.
    pub fn capacity(&self) -> (r: usize)
        ensures
            r >= self@.data.len() as int / (self@.element_size as int),
    {
        proof {
            use_type_invariant(self);
        }
        let c = vec_capacity(&self.data);
        proof {
            vstd::arithmetic::div_mod::lemma_div_is_ordered(
                self.data@.len() as int,
                c as int,
                self.element_size as int,
            );
        }
        c / self.element_size
    }

    /// Appends the bytes of one element; returns its index.
    pub fn push(&mut self, value: &[u8]) -> (r: usize)
        requires
            value@.len() == old(self)@.element_size,
            old(self)@.data.len() + value@.len() <= usize::MAX,
        ensures
            r == old(self)@.data.len() as int / (old(self)@.element_size as int),
            final(self)@ == (BufferArrayView { data: old(self)@.data + value@, ..old(self)@ }),
    {
        proof {
            use_type_invariant(&*self);
            vstd::arithmetic::div_mod::lemma_small_mod(0, self.element_size as nat);
        }
        let offset = self.data.len();
        let mut data = Vec::new();
        std::mem::swap(&mut data, &mut self.data);
        let mut i: usize = 0;
        while i < value.len()
            invariant
                i <= value@.len(),
                data@ == old(self)@.data + value@.subrange(0, i as int),
                old(self)@.data.len() + value@.len() <= usize::MAX,
            decreases value@.len() - i,
        {
            data.push(value[i]);
            i = i + 1;
            assert(data@ =~= old(self)@.data + value@.subrange(0, i as int));
        }
        assert(value@.subrange(0, value@.len() as int) =~= value@);
        proof {
            vstd::arithmetic::div_mod::lemma_mod_add_multiples_vanish(
                old(self)@.data.len() as int,
                self.element_size as int,
            );
        }
        self.data = data;
        offset / self.element_size
    }

    /// Keeps the first `len` elements.
    pub fn truncate(&mut self, len: usize)
        requires
            len * old(self)@.element_size <= usize::MAX,
        ensures
            final(self)@ == (BufferArrayView {
                data: if len * old(self)@.element_size < old(self)@.data.len() {
                    old(self)@.data.take(len * old(self)@.element_size)
                } else {
                    old(self)@.data
                },
                ..old(self)@
            }),
    {
        proof {
            use_type_invariant(&*self);
            vstd::arithmetic::div_mod::lemma_mod_multiples_basic(len as int, self.element_size as int);
            vstd::arithmetic::div_mod::lemma_small_mod(0, self.element_size as nat);
        }
        let n = len * self.element_size;
        let mut data = Vec::new();
        std::mem::swap(&mut data, &mut self.data);
        data.truncate(n);
        assert(n as int == old(self)@.data.len() ==> old(self)@.data.subrange(0, n as int) =~= old(self)@.data);
        self.data = data;
    }

    pub fn clear(&mut self)
        ensures
            final(self)@ == (BufferArrayView { data: Seq::empty(), ..old(self)@ }),
    {
        proof {
            use_type_invariant(&*self);
            vstd::arithmetic::div_mod::lemma_small_mod(0, self.element_size as nat);
        }
        let mut data = Vec::new();
        std::mem::swap(&mut data, &mut self.data);
        data.clear();
        self.data = data;
    }

    /// Brings the GPU buffer up to date with the bytes: nothing when there are
    /// none; else the buffer is created or recreated when missing or of
    /// another size, or written when dirty. The array is then clean.
    pub fn update(&mut self, device: &mut RenderDevice)
        requires
            old(device)@.next_id < u64::MAX,
            old(self)@.data.len() + 3 <= u64::MAX,
        ensures
            old(self)@.data.len() == 0 ==> final(self)@ == old(self)@ && final(device)@ == old(device)@,
            old(self)@.data.len() > 0 ==> {
                &&& final(self)@ == (BufferArrayView {
                    buffer: final(self)@.buffer,
                    is_dirty: false,
                    ..old(self)@
                })
                &&& buffer_synced(
                    old(self)@.buffer,
                    final(self)@.buffer,
                    old(self)@.data,
                    old(self)@.is_dirty,
                    old(self)@.label,
                    old(self)@.usage,
                    old(device)@,
                    final(device)@,
                )
            },
    {
        proof {
            use_type_invariant(&*self);
        }
        if self.data.len() == 0 {
            return ;
        }
        let new_buffer = sync_buffer(&self.buffer, self.data.as_slice(), self.is_dirty, &self.label, self.usage, device);
        match new_buffer {
            Some(b) => {
                self.buffer = Some(b);
            },
            None => {},
        }
        self.is_dirty = false;
    }
}

/// Brings a buffer up to date with `data`; returns the buffer that replaces
/// it, where one was created.
pub fn sync_buffer(
    buffer: &Option<Buffer>,
    data: &[u8],
    dirty: bool,
    label: &Label,
    usage: BufferUsages,
    device: &mut RenderDevice,
) -> (r: Option<Buffer>)
    requires
        old(device)@.next_id < u64::MAX,
        data@.len() + 3 <= u64::MAX,
    ensures
        buffer_synced(
            opt_view(*buffer),
            match r {
                Some(b) => Some(b@),
                None => opt_view(*buffer),
            },
            data@,
            dirty,
            *label,
            usage,
            old(device)@,
            final(device)@,
        ),
        buffer is None ==> r is Some,
{
    match buffer {
        Some(b) => {
            if data.len() != (b.size() as usize) {
                Some(Buffer::with_data(device, data, usage, clone_label(label)))
            } else if dirty {
                b.update(device, 0, data);
                assert(data@.subrange(0, data@.len() as int) =~= data@);
                None
            } else {
                None
            }
        },
        None => Some(Buffer::with_data(device, data, usage, clone_label(label))),
    }
}

/// The number of elements a vector holds without reallocating.
#[verifier::external_body]
fn vec_capacity(v: &Vec<u8>) -> (r: usize)
    ensures
        r >= v@.len(),
{
    v.capacity()
}

/// A vector of values with a fixed maximal length.
pub struct StaticArray<T> {
    array: Vec<T>,
    size: u64,
}

impl<T> StaticArray<T> {
    pub closed spec fn spec_array(&self) -> Seq<T> {
        self.array@
    }

    pub closed spec fn spec_size(&self) -> u64 {
        self.size
    }

    /// Values of at most `size` elements (positive).
    pub fn new(array: Vec<T>, size: u64) -> (r: StaticArray<T>)
        requires
            size > 0,
        ensures
            r.spec_array() == array@,
            r.spec_size() == size,
    {
        StaticArray { array, size }
    }

    pub fn size(&self) -> (r: u64)
        ensures
            r == self.spec_size(),
    {
        self.size
    }

    pub fn len(&self) -> (r: usize)
        ensures
            r == self.spec_array().len(),
    {
        self.array.len()
    }

    pub fn is_empty(&self) -> (r: bool)
        ensures
            r == (self.spec_array().len() == 0),
    {
        self.array.len() == 0
    }

    pub fn push(&mut self, value: T)
        ensures
            final(self).spec_array() == old(self).spec_array().push(value),
            final(self).spec_size() == old(self).spec_size(),
    {
        self.array.push(value);
    }

    pub fn clear(&mut self)
        ensures
            final(self).spec_array() == Seq::<T>::empty(),
            final(self).spec_size() == old(self).spec_size(),
    {
        self.array.clear();
    }

    pub fn as_slice(&self) -> (r: &[T])
        ensures
            r@ == self.spec_array(),
    {
        self.array.as_slice()
    }
}

} // verus!
