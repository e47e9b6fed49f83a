use crate::binding::BindingResource;
use crate::buffer::{
    buffer_synced, clone_label, opt_view, recorded_one, spec_end, spec_padded_size, spec_start, sync_buffer, Buffer,
    BufferArray, BufferArrayIndex, BufferArrayView, BufferSlice, BufferSliceId, BufferView, SliceBound, StaticArray,
};
use crate::bytes::{copy_range, round_up, spec_round_up, spec_write_at, write_at, zeros};
use crate::device::{DeviceCommand, Label, RenderDevice};
use crate::flags::BufferUsages;
use vstd::prelude::*;

verus! {

/// Whether `n` is a power of two.
pub open spec fn spec_is_pow2(n: nat) -> bool
    decreases n,
{
    if n == 1 {
        true
    } else if n < 2 || n % 2 != 0 {
        false
    } else {
        spec_is_pow2(n / 2)
    }
}

/// Whether `n` is a power of two.
pub fn is_pow2(n: u64) -> (r: bool)
    ensures
        r == spec_is_pow2(n as nat),
    decreases n,
{
    if n == 1 {
        true
    } else if n < 2 || n % 2 != 0 {
        false
    } else {
        is_pow2(n / 2)
    }
}

/// `COPY_DST | STORAGE`.
pub open spec fn storage_usage() -> BufferUsages {
    BufferUsages { bits: 136 }
}

/// The abstract state of a storage buffer holding one value.
pub struct StorageBufferView {
    pub label: Label,
    pub value: Seq<u8>,
    pub data: Seq<u8>,
    pub buffer: BufferView,
    pub usage: BufferUsages,
    pub is_dirty: bool,
}

/// A storage buffer holding one value (as its encoded bytes).
pub struct StorageBuffer {
    label: Label,
    value: Vec<u8>,
    data: Vec<u8>,
    buffer: Buffer,
    usage: BufferUsages,
    is_dirty: bool,
}

impl View for StorageBuffer {
    type V = StorageBufferView;

    closed spec fn view(&self) -> StorageBufferView {
        StorageBufferView {
            label: self.label,
            value: self.value@,
            data: self.data@,
            buffer: self.buffer@,
            usage: self.usage,
            is_dirty: self.is_dirty,
        }
    }
}

impl StorageBuffer {
    /// Creates the buffer holding `value`, with the given usage plus
    /// `STORAGE | COPY_DST`.
    pub fn new(device: &mut RenderDevice, value: Vec<u8>, usage: Option<BufferUsages>, label: Label) -> (r:
        StorageBuffer)
        requires
            old(device)@.next_id < u64::MAX,
            value@.len() + 3 <= u64::MAX,
        ensures
            r@.value == value@,
            r@.data == value@,
            r@.label == label,
            r@.usage.bits == (match usage {
                Some(u) => u.bits | 136,
                None => 136,
            }),
            !r@.is_dirty,
            r@.buffer == (BufferView {
                id: old(device)@.next_id,
                label,
                size: spec_padded_size(value@.len() as int) as u64,
                usage: r@.usage,
            }),
            crate::buffer::allocated_one(old(device)@, final(device)@),
            crate::buffer::create_command_matches(final(device)@.commands.last(), r@.buffer, Some(value@)),
    {
        let mut data: Vec<u8> = Vec::new();
        write_at(&mut data, 0, value.as_slice());
        assert(data@ =~= value@);
        let storage = BufferUsages::storage().union(BufferUsages::copy_dst());
        assert(128u32 | 8u32 == 136u32) by (bit_vector);
        let usage = match usage {
            Some(u) => u.union(storage),
            None => storage,
        };
        let buffer = Buffer::with_data(device, data.as_slice(), usage, clone_label(&label));
        StorageBuffer { label, value, data, buffer, usage, is_dirty: false }
    }

    pub fn with_label(self, label: Label) -> (r: StorageBuffer)
        ensures
            r@ == (StorageBufferView { label, ..self@ }),
    {
        let mut s = self;
        s.label = label;
        s
    }

    pub fn with_usage(self, usage: BufferUsages) -> (r: StorageBuffer)
        ensures
            r@ == (StorageBufferView { usage, ..self@ }),
    {
        let mut s = self;
        s.usage = usage;
        s
    }

    /// The encoded value.
    pub fn value(&self) -> (r: &[u8])
        ensures
            r@ == self@.value,
    {
        self.value.as_slice()
    }

    /// The bytes last written for the GPU.
    pub fn data(&self) -> (r: &[u8])
        ensures
            r@ == self@.data,
    {
        self.data.as_slice()
    }

    pub fn id(&self) -> (r: u64)
        ensures
            r == self@.buffer.id,
    {
        self.buffer.id()
    }

    pub fn buffer(&self) -> (r: &Buffer)
        ensures
            r@ == self@.buffer,
    {
        &self.buffer
    }

    pub fn inner(&self) -> (r: &Buffer)
        ensures
            r@ == self@.buffer,
    {
        &self.buffer
    }

    pub fn is_dirty(&self) -> (r: bool)
        ensures
            r == self@.is_dirty,
    {
        self.is_dirty
    }

    pub fn binding(&self) -> (r: BindingResource)
        ensures
            r == (BindingResource::Buffer { id: self@.buffer.id, offset: 0, size: None }),
    {
        self.buffer.as_entire_binding()
    }

    /// Replaces the value; the buffer is written at the next update.
    pub fn set(&mut self, value: Vec<u8>)
        ensures
            final(self)@ == (StorageBufferView { value: value@, is_dirty: true, ..old(self)@ }),
    {
        self.value = value;
        self.is_dirty = true;
    }

    /// The value, for changing in place; the buffer is written at the next update.
    pub fn get_mut(&mut self) -> (r: &mut Vec<u8>)
        ensures
            r@ == old(self)@.value,
            final(self)@ == (StorageBufferView { value: final(r)@, is_dirty: true, ..old(self)@ }),
    {
        self.is_dirty = true;
        &mut self.value
    }

    /// When dirty, encodes the value and writes it to the buffer.
    pub fn update(&mut self, device: &mut RenderDevice)
        requires
            vstd::math::max(old(self)@.data.len() as int, old(self)@.value.len() as int) <= usize::MAX,
        ensures
            !old(self)@.is_dirty ==> final(self)@ == old(self)@ && final(device)@ == old(device)@,
            old(self)@.is_dirty ==> {
                let data = spec_write_at(old(self)@.data, 0, old(self)@.value);
                &&& final(self)@ == (StorageBufferView { data, is_dirty: false, ..old(self)@ })
                &&& recorded_one(old(device)@, final(device)@)
                &&& final(device)@.commands.last() matches DeviceCommand::WriteBuffer { id, offset, data: d }
                    && id == old(self)@.buffer.id && offset == 0 && d@ == data.subrange(
                    0,
                    vstd::math::min(data.len() as int, old(self)@.buffer.size as int),
                )
            },
    {
        if self.is_dirty {
            write_at(&mut self.data, 0, self.value.as_slice());
            self.buffer.update(device, 0, self.data.as_slice());
            self.is_dirty = false;
        }
    }
}

/// The abstract state of a storage buffer created on first update.
pub struct LazyStorageBufferView {
    pub label: Label,
    pub value: Seq<u8>,
    pub data: Seq<u8>,
    pub buffer: Option<BufferView>,
    pub usage: BufferUsages,
    pub is_dirty: bool,
}

/// A storage buffer holding one value, created on the device at its first update.
pub struct LazyStorageBuffer {
    label: Label,
    value: Vec<u8>,
    data: Vec<u8>,
    inner: Option<Buffer>,
    usage: BufferUsages,
    is_dirty: bool,
}

impl View for LazyStorageBuffer {
    type V = LazyStorageBufferView;

    closed spec fn view(&self) -> LazyStorageBufferView {
        LazyStorageBufferView {
            label: self.label,
            value: self.value@,
            data: self.data@,
            buffer: opt_view(self.inner),
            usage: self.usage,
            is_dirty: self.is_dirty,
        }
    }
}

impl LazyStorageBuffer {
    /// A clean value with no GPU buffer yet, usage `COPY_DST | STORAGE`.
    pub fn new(value: Vec<u8>) -> (r: LazyStorageBuffer)
        ensures
            r@ == (LazyStorageBufferView {
                label: None,
                value: value@,
                data: Seq::empty(),
                buffer: None,
                usage: storage_usage(),
                is_dirty: false,
            }),
    {
        LazyStorageBuffer {
            label: None,
            value,
            data: Vec::new(),
            inner: None,
            usage: BufferUsages { bits: 136 },
            is_dirty: false,
        }
    }

    pub fn with_label(self, label: Label) -> (r: LazyStorageBuffer)
        ensures
            r@ == (LazyStorageBufferView { label, ..self@ }),
    {
        let mut s = self;
        s.label = label;
        s
    }

    pub fn with_usage(self, usage: BufferUsages) -> (r: LazyStorageBuffer)
        ensures
            r@ == (LazyStorageBufferView { usage, ..self@ }),
    {
        let mut s = self;
        s.usage = usage;
        s
    }

    pub fn value(&self) -> (r: &[u8])
        ensures
            r@ == self@.value,
    {
        self.value.as_slice()
    }

    pub fn data(&self) -> (r: &[u8])
        ensures
            r@ == self@.data,
    {
        self.data.as_slice()
    }

    pub fn inner(&self) -> (r: Option<&Buffer>)
        ensures
            match r {
                Some(b) => self@.buffer == Some(b@),
                None => self@.buffer is None,
            },
    {
        match &self.inner {
            Some(b) => Some(b),
            None => None,
        }
    }

    pub fn is_dirty(&self) -> (r: bool)
        ensures
            r == self@.is_dirty,
    {
        self.is_dirty
    }

    pub fn binding(&self) -> (r: Option<BindingResource>)
        ensures
            match self@.buffer {
                Some(b) => r == Some(BindingResource::Buffer { id: b.id, offset: 0, size: None }),
                None => r is None,
            },
    {
        match &self.inner {
            Some(b) => Some(b.as_entire_binding()),
            None => None,
        }
    }

    pub fn set(&mut self, value: Vec<u8>)
        ensures
            final(self)@ == (LazyStorageBufferView { value: value@, is_dirty: true, ..old(self)@ }),
    {
        self.value = value;
        self.is_dirty = true;
    }

    /// Creates the buffer with the encoded value when there is none; else,
    /// when dirty, writes the encoded value to it.
    pub fn update(&mut self, device: &mut RenderDevice)
        requires
            old(device)@.next_id < u64::MAX,
            vstd::math::max(old(self)@.data.len() as int, old(self)@.value.len() as int) + 3 <= u64::MAX,
        ensures
            old(self)@.buffer is Some && !old(self)@.is_dirty ==> final(self)@ == old(self)@ && final(device)@
                == old(device)@,
            old(self)@.buffer is Some && old(self)@.is_dirty ==> {
                let data = spec_write_at(old(self)@.data, 0, old(self)@.value);
                let b = old(self)@.buffer.unwrap();
                &&& final(self)@ == (LazyStorageBufferView { data, is_dirty: false, ..old(self)@ })
                &&& recorded_one(old(device)@, final(device)@)
                &&& final(device)@.commands.last() matches DeviceCommand::WriteBuffer { id, offset, data: d }
                    && id == b.id && offset == 0 && d@ == data.subrange(
                    0,
                    vstd::math::min(data.len() as int, b.size as int),
                )
            },
            old(self)@.buffer is None ==> {
                let data = spec_write_at(old(self)@.data, 0, old(self)@.value);
                &&& final(self)@ == (LazyStorageBufferView {
                    data,
                    is_dirty: false,
                    buffer: final(self)@.buffer,
                    ..old(self)@
                })
                &&& final(self)@.buffer == Some(
                    BufferView {
                        id: old(device)@.next_id,
                        label: old(self)@.label,
                        size: spec_padded_size(data.len() as int) as u64,
                        usage: old(self)@.usage,
                    },
                )
                &&& crate::buffer::allocated_one(old(device)@, final(device)@)
                &&& crate::buffer::create_command_matches(
                    final(device)@.commands.last(),
                    final(self)@.buffer.unwrap(),
                    Some(data),
                )
            },
    {
        match &self.inner {
            Some(buffer) => {
                if self.is_dirty {
                    write_at(&mut self.data, 0, self.value.as_slice());
                    buffer.update(device, 0, self.data.as_slice());
                    self.is_dirty = false;
                }
            },
            None => {
                write_at(&mut self.data, 0, self.value.as_slice());
                let buffer = Buffer::with_data(device, self.data.as_slice(), self.usage, clone_label(&self.label));
                self.inner = Some(buffer);
                self.is_dirty = false;
            },
        }
    }
}


/// The abstract state of an array of values in a storage buffer.
pub struct StorageBufferArrayView {
    pub label: Label,
    pub data: Seq<u8>,
    pub offset: u64,
    pub alignment: u64,
    pub element_size: u64,
    pub buffer: Option<BufferView>,
    pub usage: BufferUsages,
    pub is_dirty: bool,
}

/// Values written one after another into a byte vector, each at an offset
/// aligned to `alignment`, mirrored by a storage buffer.
pub struct StorageBufferArray {
    label: Label,
    data: Vec<u8>,
    offset: u64,
    alignment: u64,
    element_size: u64,
    buffer: Option<Buffer>,
    usage: BufferUsages,
    is_dirty: bool,
}

impl View for StorageBufferArray {
    type V = StorageBufferArrayView;

    closed spec fn view(&self) -> StorageBufferArrayView {
        StorageBufferArrayView {
            label: self.label,
            data: self.data@,
            offset: self.offset,
            alignment: self.alignment,
            element_size: self.element_size,
            buffer: opt_view(self.buffer),
            usage: self.usage,
            is_dirty: self.is_dirty,
        }
    }
}

impl StorageBufferArray {
    #[verifier::type_invariant]
    spec fn inv(&self) -> bool {
        &&& self.element_size > 0
        &&& self.alignment > 0
    }

    /// An empty array of values of at least `element_size` bytes, aligned to 256.
    pub fn new(element_size: u64) -> (r: StorageBufferArray)
        requires
            element_size > 0,
        ensures
            r@ == (StorageBufferArrayView {
                label: None,
                data: Seq::empty(),
                offset: 0,
                alignment: 256,
                element_size,
                buffer: None,
                usage: storage_usage(),
                is_dirty: false,
            }),
    {
        StorageBufferArray {
            label: None,
            data: Vec::new(),
            offset: 0,
            alignment: 256,
            element_size,
            buffer: None,
            usage: BufferUsages { bits: 136 },
            is_dirty: false,
        }
    }

    /// An empty array aligned to `alignment`, a power of two of at least 32.
    pub fn with_alignment(element_size: u64, alignment: u64) -> (r: StorageBufferArray)
        requires
            element_size > 0,
            alignment >= 32,
            spec_is_pow2(alignment as nat),
        ensures
            r@ == (StorageBufferArrayView {
                label: None,
                data: Seq::empty(),
                offset: 0,
                alignment,
                element_size,
                buffer: None,
                usage: storage_usage(),
                is_dirty: false,
            }),
    {
        StorageBufferArray {
            label: None,
            data: Vec::new(),
            offset: 0,
            alignment,
            element_size,
            buffer: None,
            usage: BufferUsages { bits: 136 },
            is_dirty: false,
        }
    }

    pub fn with_label(self, label: Label) -> (r: StorageBufferArray)
        ensures
            r@ == (StorageBufferArrayView { label, ..self@ }),
    {
        proof {
            use_type_invariant(&self);
        }
        let mut s = self;
        s.label = label;
        s
    }

    pub fn with_usage(self, usage: BufferUsages) -> (r: StorageBufferArray)
        ensures
            r@ == (StorageBufferArrayView { usage, ..self@ }),
    {
        proof {
            use_type_invariant(&self);
        }
        let mut s = self;
        s.usage = usage;
        s
    }

    /// Replaces the usage of the buffer created at the next update.
    pub fn set_usage(&mut self, usage: BufferUsages)
        ensures
            final(self)@ == (StorageBufferArrayView { usage, ..old(self)@ }),
    {
        proof {
            use_type_invariant(&*self);
        }
        self.usage = usage;
    }

    pub fn label(&self) -> (r: &Label)
        ensures
            *r == self@.label,
    {
        &self.label
    }

    pub fn buffer(&self) -> (r: Option<&Buffer>)
        ensures
            match r {
                Some(b) => self@.buffer == Some(b@),
                None => self@.buffer is None,
            },
    {
        match &self.buffer {
            Some(b) => Some(b),
            None => None,
        }
    }

    pub fn inner(&self) -> (r: Option<&Buffer>)
        ensures
            match r {
                Some(b) => self@.buffer == Some(b@),
                None => self@.buffer is None,
            },
    {
        self.buffer()
    }

    pub fn data(&self) -> (r: &[u8])
        ensures
            r@ == self@.data,
    {
        self.data.as_slice()
    }

    pub fn usage(&self) -> (r: BufferUsages)
        ensures
            r == self@.usage,
    {
        self.usage
    }

    pub fn is_dirty(&self) -> (r: bool)
        ensures
            r == self@.is_dirty,
    {
        self.is_dirty
    }

    /// The number of whole elements the bytes hold.
    pub fn len(&self) -> (r: usize)
        ensures
            r == self@.data.len() as int / (self@.element_size as int),
    {
        proof {
            use_type_invariant(self);
        }
        let n = self.data.len() as u64;
        (n / self.element_size) as usize
    }

    pub fn is_empty(&self) -> (r: bool)
        ensures
            r == (self@.data.len() == 0),
    {
        self.data.len() == 0
    }

    pub fn binding(&self) -> (r: Option<BindingResource>)
        ensures
            match self@.buffer {
                Some(b) => r == Some(BindingResource::Buffer { id: b.id, offset: 0, size: None }),
                None => r is None,
            },
    {
        match &self.buffer {
            Some(b) => Some(b.as_entire_binding()),
            None => None,
        }
    }

    /// Writes the encoded value at the current offset, then moves the offset
    /// past it, rounded up to the alignment.
    pub fn push(&mut self, value: &[u8])
        requires
            old(self)@.offset + value@.len() <= usize::MAX,
            old(self)@.offset + spec_round_up(value@.len() as int, old(self)@.alignment as int) <= u64::MAX,
            value@.len() + old(self)@.alignment <= u64::MAX,
        ensures
            final(self)@ == (StorageBufferArrayView {
                data: spec_write_at(old(self)@.data, old(self)@.offset as int, value@),
                offset: (old(self)@.offset + spec_round_up(value@.len() as int, old(self)@.alignment as int)) as u64,
                is_dirty: true,
                ..old(self)@
            }),
    {
        proof {
            use_type_invariant(&*self);
        }
        let mut data = Vec::new();
        std::mem::swap(&mut data, &mut self.data);
        write_at(&mut data, self.offset as usize, value);
        self.data = data;
        let step = round_up(value.len() as u64, self.alignment);
        self.offset = self.offset + step;
        self.is_dirty = true;
    }

    /// Writes the encoded value over element `index`; the offset then moves
    /// to the end of the bytes. Both offsets must be aligned.
    pub fn set(&mut self, index: usize, value: &[u8])
        requires
            index * old(self)@.element_size <= u64::MAX,
            (index * old(self)@.element_size) % (old(self)@.alignment as int) == 0,
            index * old(self)@.element_size + value@.len() <= usize::MAX,
            spec_write_at(old(self)@.data, index * old(self)@.element_size, value@).len() as int % (old(
                self,
            )@.alignment as int) == 0,
        ensures
            final(self)@ == (StorageBufferArrayView {
                data: spec_write_at(old(self)@.data, index * old(self)@.element_size, value@),
                offset: spec_write_at(old(self)@.data, index * old(self)@.element_size, value@).len() as u64,
                is_dirty: true,
                ..old(self)@
            }),
    {
        proof {
            use_type_invariant(&*self);
        }
        let at = (index as u64) * self.element_size;
        let mut data = Vec::new();
        std::mem::swap(&mut data, &mut self.data);
        write_at(&mut data, at as usize, value);
        self.data = data;
        self.offset = self.data.len() as u64;
        self.is_dirty = true;
    }

    /// Drops all values; writing starts over at offset 0.
    pub fn clear(&mut self)
        ensures
            final(self)@ == (StorageBufferArrayView { data: Seq::empty(), offset: 0, ..old(self)@ }),
    {
        proof {
            use_type_invariant(&*self);
        }
        self.data = Vec::new();
        self.offset = 0;
    }

    /// Brings the GPU buffer up to date: created when missing, recreated when
    /// the bytes outgrew it, else written when dirty. The array is then clean.
    pub fn update(&mut self, device: &mut RenderDevice)
        requires
            old(device)@.next_id < u64::MAX,
            old(self)@.data.len() + 3 <= u64::MAX,
        ensures
            final(self)@ == (StorageBufferArrayView {
                buffer: final(self)@.buffer,
                is_dirty: false,
                ..old(self)@
            }),
            storage_synced(old(self)@, final(self)@.buffer, old(device)@, final(device)@),
    {
        proof {
            use_type_invariant(&*self);
        }
        match &self.buffer {
            Some(buffer) => {
                let capacity = buffer.size();
                let size = self.data.len() as u64;
                if size > capacity {
                    let b = Buffer::with_data(device, self.data.as_slice(), self.usage, clone_label(&self.label));
                    self.buffer = Some(b);
                    self.is_dirty = false;
                } else if self.is_dirty {
                    buffer.update(device, 0, self.data.as_slice());
                    assert(self.data@.subrange(0, self.data@.len() as int) =~= self.data@);
                    self.is_dirty = false;
                }
            },
            None => {
                let b = Buffer::with_data(device, self.data.as_slice(), self.usage, clone_label(&self.label));
                self.buffer = Some(b);
                self.is_dirty = false;
            },
        }
    }

    /// The bytes of element `index`.
    pub fn get(&self, index: usize) -> (r: Vec<u8>)
        requires
            index * self@.element_size + self@.element_size <= self@.data.len(),
        ensures
            r@ == self@.data.subrange(index * self@.element_size, index * self@.element_size + self@.element_size),
    {
        proof {
            use_type_invariant(self);
        }
        let n = self.data.len();
        assert(self.element_size <= n);
        let es = self.element_size as usize;
        proof {
            assert(index * es <= n) by (nonlinear_arith)
                requires
                    index * self.element_size + self.element_size <= n,
                    es == self.element_size,
            ;
        }
        let offset = index * es;
        copy_range(self.data.as_slice(), offset, offset + es)
    }
}

/// How a storage array's GPU buffer stands after an update: created when
/// missing, recreated when the bytes outgrew it, else written when dirty.
pub open spec fn storage_synced(
    a: StorageBufferArrayView,
    new_buffer: Option<BufferView>,
    before: crate::device::DeviceView,
    after: crate::device::DeviceView,
) -> bool {
    let fresh = BufferView {
        id: before.next_id,
        label: a.label,
        size: spec_padded_size(a.data.len() as int) as u64,
        usage: a.usage,
    };
    match a.buffer {
        Some(b) => if a.data.len() > b.size {
            &&& new_buffer == Some(fresh)
            &&& crate::buffer::allocated_one(before, after)
            &&& crate::buffer::create_command_matches(after.commands.last(), fresh, Some(a.data))
        } else if a.is_dirty {
            &&& new_buffer == a.buffer
            &&& recorded_one(before, after)
            &&& after.commands.last() matches DeviceCommand::WriteBuffer { id, offset, data: d }
                && id == b.id && offset == 0 && d@ == a.data
        } else {
            new_buffer == a.buffer && after == before
        },
        None => {
            &&& new_buffer == Some(fresh)
            &&& crate::buffer::allocated_one(before, after)
            &&& crate::buffer::create_command_matches(after.commands.last(), fresh, Some(a.data))
        },
    }
}


/// The bytes of a sequence of encoded values, one after the other.
pub open spec fn concat_bytes(values: Seq<Vec<u8>>) -> Seq<u8>
    decreases values.len(),
{
    if values.len() == 0 {
        Seq::empty()
    } else {
        concat_bytes(values.drop_last()) + values.last()@
    }
}

/// The bytes of a sequence of values each `size` bytes long, padded with
/// zeros to `count` values.
pub open spec fn batch_bytes(values: Seq<Vec<u8>>, size: int, count: int) -> Seq<u8> {
    concat_bytes(values) + Seq::new((count * size - concat_bytes(values).len()) as nat, |i: int| 0u8)
}

pub proof fn lemma_concat_len(values: Seq<Vec<u8>>, size: int)
    requires
        forall|i: int| 0 <= i < values.len() ==> #[trigger] values[i]@.len() == size,
    ensures
        concat_bytes(values).len() == values.len() * size,
    decreases values.len(),
{
    if values.len() > 0 {
        assert forall|i: int| 0 <= i < values.drop_last().len() implies #[trigger] values.drop_last()[i]@.len()
            == size by {
            assert(values.drop_last()[i] == values[i]);
        }
        lemma_concat_len(values.drop_last(), size);
        assert(values.len() * size == (values.len() - 1) * size + size) by (nonlinear_arith);
    }
}

/// Concatenates encoded values.
fn concat_values(values: &[Vec<u8>]) -> (r: Vec<u8>)
    requires
        concat_bytes(values@).len() <= usize::MAX,
    ensures
        r@ == concat_bytes(values@),
{
    let mut out: Vec<u8> = Vec::new();
    let mut i: usize = 0;
    while i < values.len()
        invariant
            i <= values@.len(),
            out@ == concat_bytes(values@.subrange(0, i as int)),
            concat_bytes(values@).len() <= usize::MAX,
        decreases values@.len() - i,
    {
        proof {
            lemma_concat_prefix(values@, i as int + 1);
            assert(values@.subrange(0, i + 1).drop_last() =~= values@.subrange(0, i as int));
        }
        let v = &values[i];
        let mut j: usize = 0;
        let ghost before = out@;
        while j < v.len()
            invariant
                j <= v@.len(),
                out@ == before + v@.subrange(0, j as int),
                before.len() + v@.len() <= usize::MAX,
            decreases v@.len() - j,
        {
            out.push(v[j]);
            j = j + 1;
            assert(out@ =~= before + v@.subrange(0, j as int));
        }
        assert(v@.subrange(0, v@.len() as int) =~= v@);
        i = i + 1;
    }
    assert(values@.subrange(0, values@.len() as int) =~= values@);
    out
}

pub proof fn lemma_concat_prefix(values: Seq<Vec<u8>>, n: int)
    requires
        0 <= n <= values.len(),
    ensures
        concat_bytes(values.subrange(0, n)).len() <= concat_bytes(values).len(),
    decreases values.len(),
{
    if n < values.len() {
        lemma_concat_prefix(values.drop_last(), n);
        assert(values.drop_last().subrange(0, n) =~= values.subrange(0, n));
    } else {
        assert(values.subrange(0, n) =~= values);
    }
}

/// The abstract state of a batched storage buffer.
pub struct BatchedStorageBufferView {
    pub label: Label,
    pub buffer: StorageBufferArrayView,
    pub batch: Seq<Vec<u8>>,
    pub batch_size: u64,
    pub element_size: u64,
    pub offset: u64,
    pub alignment: u32,
}

/// Values gathered into fixed-size batches; each full batch is written into
/// a storage buffer array at the device's dynamic-offset alignment.
pub struct BatchedStorageBuffer {
    label: Label,
    buffer: StorageBufferArray,
    batch: StaticArray<Vec<u8>>,
    element_size: u64,
    offset: u64,
    dynamic_offset_alignment: u32,
}

impl View for BatchedStorageBuffer {
    type V = BatchedStorageBufferView;

    closed spec fn view(&self) -> BatchedStorageBufferView {
        BatchedStorageBufferView {
            label: self.label,
            buffer: self.buffer@,
            batch: self.batch.spec_array(),
            batch_size: self.batch.spec_size(),
            element_size: self.element_size,
            offset: self.offset,
            alignment: self.dynamic_offset_alignment,
        }
    }
}

/// A batched buffer's values are whole and its batch is never full.
pub open spec fn batched_wf(b: BatchedStorageBufferView) -> bool {
    &&& b.element_size > 0
    &&& b.batch_size > 0
    &&& b.alignment > 0
    &&& b.batch.len() < b.batch_size
    &&& b.batch_size * b.element_size <= usize::MAX
    &&& b.offset % (b.alignment as u64) == 0
    &&& forall|i: int| 0 <= i < b.batch.len() ==> #[trigger] b.batch[i]@.len() == b.element_size
}

/// The batch written as one value: its values padded to a full batch.
pub open spec fn flushed(b: BatchedStorageBufferView) -> Seq<u8> {
    batch_bytes(b.batch, b.element_size as int, b.batch_size as int)
}

/// Room for one more batch in the storage array.
pub open spec fn batch_fits(b: BatchedStorageBufferView) -> bool {
    &&& b.buffer.offset + b.batch_size * b.element_size <= usize::MAX
    &&& b.buffer.offset + spec_round_up(b.batch_size * b.element_size, b.buffer.alignment as int) <= u64::MAX
    &&& b.batch_size * b.element_size + b.buffer.alignment <= u64::MAX
    &&& b.offset + b.alignment - 1 <= u64::MAX
}

/// The state after the batch was flushed: the padded batch written at the
/// storage array's offset, both offsets advanced, the batch emptied.
pub open spec fn after_flush(b: BatchedStorageBufferView) -> BatchedStorageBufferView {
    BatchedStorageBufferView {
        batch: Seq::empty(),
        offset: spec_round_up(b.offset as int, b.alignment as int) as u64,
        buffer: StorageBufferArrayView {
            data: spec_write_at(b.buffer.data, b.buffer.offset as int, flushed(b)),
            offset: (b.buffer.offset + spec_round_up(b.batch_size * b.element_size, b.buffer.alignment as int)) as u64,
            is_dirty: true,
            ..b.buffer
        },
        ..b
    }
}

/// The state after `value` was pushed: it joins the batch, and a batch
/// that is then full is flushed.
pub open spec fn after_push(b: BatchedStorageBufferView, value: Vec<u8>) -> BatchedStorageBufferView {
    let pushed = BatchedStorageBufferView { batch: b.batch.push(value), ..b };
    if b.batch.len() + 1 < b.batch_size {
        pushed
    } else {
        after_flush(pushed)
    }
}

/// `after` is the state after an update from `b`: a non-empty batch was
/// flushed, then the storage array brought up to date on the device.
pub open spec fn batched_synced(
    b: BatchedStorageBufferView,
    after: BatchedStorageBufferView,
    before_device: crate::device::DeviceView,
    after_device: crate::device::DeviceView,
) -> bool {
    let f = if b.batch.len() > 0 {
        after_flush(b)
    } else {
        b
    };
    &&& after == (BatchedStorageBufferView {
        buffer: StorageBufferArrayView { buffer: after.buffer.buffer, is_dirty: false, ..f.buffer },
        ..f
    })
    &&& storage_synced(f.buffer, after.buffer.buffer, before_device, after_device)
}

impl BatchedStorageBuffer {
    /// Batches as many values of `element_size` bytes as fit in the device's
    /// storage-offset alignment.
    pub fn new(device: &RenderDevice, element_size: u64) -> (r: BatchedStorageBuffer)
        requires
            element_size > 0,
            device@.limits.min_storage_buffer_offset_alignment >= 32,
            device@.limits.min_storage_buffer_offset_alignment >= element_size,
            spec_is_pow2(device@.limits.min_storage_buffer_offset_alignment as nat),
        ensures
            r@ == (BatchedStorageBufferView {
                label: None,
                buffer: StorageBufferArrayView {
                    label: None,
                    data: Seq::empty(),
                    offset: 0,
                    alignment: device@.limits.min_storage_buffer_offset_alignment as u64,
                    element_size,
                    buffer: None,
                    usage: storage_usage(),
                    is_dirty: false,
                },
                batch: Seq::empty(),
                batch_size: (device@.limits.min_storage_buffer_offset_alignment as u64 / element_size) as u64,
                element_size,
                offset: 0,
                alignment: device@.limits.min_storage_buffer_offset_alignment,
            }),
            batched_wf(r@),
    {
        let alignment = device.limits().min_storage_buffer_offset_alignment;
        let batch_size = alignment as u64 / element_size;
        proof {
            vstd::arithmetic::div_mod::lemma_div_is_ordered(element_size as int, alignment as int, element_size as int);
            vstd::arithmetic::div_mod::lemma_div_by_self(element_size as int);
            vstd::arithmetic::div_mod::lemma_fundamental_div_mod(alignment as int, element_size as int);
            vstd::arithmetic::div_mod::lemma_mod_pos_bound(alignment as int, element_size as int);
            assert(batch_size * element_size <= alignment) by (nonlinear_arith)
                requires
                    alignment as int == element_size * batch_size + (alignment as int) % (element_size as int),
                    (alignment as int) % (element_size as int) >= 0,
            ;
        }
        proof {
            vstd::arithmetic::div_mod::lemma_small_mod(0, alignment as nat);
        }
        BatchedStorageBuffer {
            label: None,
            buffer: StorageBufferArray::with_alignment(element_size, alignment as u64),
            batch: StaticArray::new(Vec::new(), batch_size),
            element_size,
            offset: 0,
            dynamic_offset_alignment: alignment,
        }
    }

    pub fn with_label(self, label: Label) -> (r: BatchedStorageBuffer)
        ensures
            r@ == (BatchedStorageBufferView { label, ..self@ }),
    {
        let mut s = self;
        s.label = label;
        s
    }

    /// Sets the usage of the storage buffer.
    pub fn with_usage(self, usage: BufferUsages) -> (r: BatchedStorageBuffer)
        ensures
            r@ == (BatchedStorageBufferView {
                buffer: StorageBufferArrayView { usage, ..self@.buffer },
                ..self@
            }),
    {
        let mut s = self;
        s.buffer.set_usage(usage);
        s
    }

    pub fn label(&self) -> (r: &Label)
        ensures
            *r == self@.label,
    {
        &self.label
    }

    /// The usage of the storage buffer.
    pub fn usage(&self) -> (r: BufferUsages)
        ensures
            r == self@.buffer.usage,
    {
        self.buffer.usage()
    }

    /// Whether no value was pushed: the batch and the written bytes are empty.
    pub fn is_empty(&self) -> (r: bool)
        ensures
            r == (self@.batch.len() == 0 && self@.buffer.data.len() == 0),
    {
        self.batch.is_empty() && self.buffer.is_empty()
    }

    /// The number of values in a batch.
    pub fn size(&self) -> (r: u64)
        ensures
            r == self@.batch_size,
    {
        self.batch.size()
    }

    pub fn inner(&self) -> (r: Option<&Buffer>)
        ensures
            match r {
                Some(b) => self@.buffer.buffer == Some(b@),
                None => self@.buffer.buffer is None,
            },
    {
        self.buffer.buffer()
    }

    pub fn binding(&self) -> (r: Option<BindingResource>)
        ensures
            match self@.buffer.buffer {
                Some(b) => r == Some(BindingResource::Buffer { id: b.id, offset: 0, size: None }),
                None => r is None,
            },
    {
        self.buffer.binding()
    }

    /// Adds a value to the batch; a full batch is flushed. Returns the value's
    /// index in its batch and the batch's dynamic offset.
    pub fn push(&mut self, value: Vec<u8>) -> (r: BufferArrayIndex)
        requires
            batched_wf(old(self)@),
            batch_fits(old(self)@),
            value@.len() == old(self)@.element_size,
            old(self)@.batch.len() <= u32::MAX,
            old(self)@.offset <= u32::MAX,
        ensures
            r == (BufferArrayIndex {
                index: old(self)@.batch.len() as u32,
                dynamic_offset: Some(old(self)@.offset as u32),
            }),
            r.dynamic_offset matches Some(o) && o % old(self)@.alignment == 0,
            batched_wf(final(self)@),
            old(self)@.batch.len() + 1 < old(self)@.batch_size ==> final(self)@ == (BatchedStorageBufferView {
                batch: old(self)@.batch.push(value),
                ..old(self)@
            }),
            old(self)@.batch.len() + 1 == old(self)@.batch_size ==> final(self)@ == after_flush(
                (BatchedStorageBufferView { batch: old(self)@.batch.push(value), ..old(self)@ }),
            ),
    {
        proof {
            crate::bytes::lemma_round_up(self.offset as int, self.dynamic_offset_alignment as int);
        }
        let index = BufferArrayIndex::new(self.batch.len() as u32, Some(self.offset as u32));
        self.batch.push(value);
        if self.batch.len() as u64 == self.size() {
            self.flush();
        }
        index
    }

    /// Writes the batch, padded to full size, into the storage array, aligns
    /// the dynamic offset and empties the batch.
    pub fn flush(&mut self)
        requires
            old(self)@.element_size > 0,
            old(self)@.alignment > 0,
            old(self)@.batch.len() <= old(self)@.batch_size,
            old(self)@.batch_size * old(self)@.element_size <= usize::MAX,
            forall|i: int| 0 <= i < old(self)@.batch.len() ==> #[trigger] old(self)@.batch[i]@.len() == old(self)@.element_size,
            batch_fits(old(self)@),
        ensures
            flushed(old(self)@).len() == old(self)@.batch_size * old(self)@.element_size,
            final(self)@ == after_flush(old(self)@),
    {
        proof {
            lemma_concat_len(self.batch.spec_array(), self.element_size as int);
            assert(self.batch.spec_array().len() * self.element_size <= self.batch.spec_size() * self.element_size)
                by (nonlinear_arith)
                requires
                    self.batch.spec_array().len() <= self.batch.spec_size(),
            ;
        }
        let mut bytes = concat_values(self.batch.as_slice());
        let full = (self.batch.size() * self.element_size) as usize;
        let pad = zeros(full - bytes.len());
        let mut k: usize = 0;
        let ghost start = bytes@;
        while k < pad.len()
            invariant
                k <= pad@.len(),
                bytes@ == start + pad@.subrange(0, k as int),
                start.len() + pad@.len() <= usize::MAX,
            decreases pad@.len() - k,
        {
            bytes.push(pad[k]);
            k = k + 1;
            assert(bytes@ =~= start + pad@.subrange(0, k as int));
        }
        assert(pad@.subrange(0, pad@.len() as int) =~= pad@);
        assert(bytes@ =~= flushed(self@));
        self.buffer.push(bytes.as_slice());
        self.align_offset();
        self.batch.clear();
    }

    /// Flushes a non-empty batch, then brings the storage buffer up to date.
    pub fn update(&mut self, device: &mut RenderDevice)
        requires
            batched_wf(old(self)@),
            batch_fits(old(self)@),
            old(device)@.next_id < u64::MAX,
            vstd::math::max(
                old(self)@.buffer.data.len() as int,
                old(self)@.buffer.offset + old(self)@.batch_size * old(self)@.element_size,
            ) + 3 <= u64::MAX,
        ensures
            batched_wf(final(self)@),
            batched_synced(old(self)@, final(self)@, old(device)@, final(device)@),
            final(self)@.batch.len() == 0,
            final(self)@.buffer.buffer is Some,
    {
        proof {
            crate::bytes::lemma_round_up(self.offset as int, self.dynamic_offset_alignment as int);
        }
        if !self.batch.is_empty() {
            self.flush();
        }
        self.buffer.update(device);
    }

    fn align_offset(&mut self)
        requires
            old(self)@.alignment > 0,
            old(self)@.offset + old(self)@.alignment - 1 <= u64::MAX,
        ensures
            final(self)@ == (BatchedStorageBufferView {
                offset: spec_round_up(old(self)@.offset as int, old(self)@.alignment as int) as u64,
                ..old(self)@
            }),
    {
        let alignment = self.dynamic_offset_alignment as u64;
        self.offset = round_up(self.offset, alignment);
    }
}

/// The dynamic offset of a batched buffer starts at zero and rounding keeps
/// it there: every value a batched buffer hands out has dynamic offset 0.
pub proof fn lemma_batched_offset_stays_zero(alignment: int)
    requires
        alignment > 0,
    ensures
        spec_round_up(0, alignment) == 0,
{
    crate::bytes::lemma_round_up(0, alignment);
}

/// The abstract state of a render buffer array.
pub enum RenderBufferArrayView {
    Uniform(BatchedStorageBufferView),
    Storage(BufferArrayView),
}

/// Whether a value of `len` bytes can be pushed.
pub open spec fn can_push(v: RenderBufferArrayView, len: nat) -> bool {
    match v {
        RenderBufferArrayView::Uniform(b) => {
            &&& batched_wf(b)
            &&& batch_fits(b)
            &&& len == b.element_size
            &&& b.batch.len() <= u32::MAX
            &&& b.offset <= u32::MAX
        },
        RenderBufferArrayView::Storage(a) => len == a.element_size && a.data.len() + len <= usize::MAX,
    }
}

/// An array of values for shaders: batched behind dynamic offsets where the
/// device has no storage buffers, else one growable storage array.
pub enum RenderBufferArray {
    Uniform(BatchedStorageBuffer),
    Storage(BufferArray),
}

impl View for RenderBufferArray {
    type V = RenderBufferArrayView;

    open spec fn view(&self) -> RenderBufferArrayView {
        match self {
            RenderBufferArray::Uniform(b) => RenderBufferArrayView::Uniform(b@),
            RenderBufferArray::Storage(a) => RenderBufferArrayView::Storage(a@),
        }
    }
}

impl RenderBufferArray {
    /// An empty array of values of `element_size` bytes with the given usage:
    /// batched when the device allows no storage buffer per shader stage,
    /// else a storage array.
    pub fn new(device: &RenderDevice, usage: BufferUsages, element_size: u64) -> (r: RenderBufferArray)
        requires
            element_size > 0,
            element_size <= usize::MAX,
            device@.limits.max_storage_buffers_per_shader_stage == 0 ==> {
                &&& device@.limits.min_storage_buffer_offset_alignment >= 32
                &&& device@.limits.min_storage_buffer_offset_alignment >= element_size
                &&& spec_is_pow2(device@.limits.min_storage_buffer_offset_alignment as nat)
            },
        ensures
            device@.limits.max_storage_buffers_per_shader_stage == 0 ==> (r@ matches RenderBufferArrayView::Uniform(b)
                && batched_wf(b) && b.buffer.usage == usage && b.element_size == element_size && b.batch.len() == 0
                && b.buffer.data.len() == 0 && b.buffer.buffer.is_none() && b.label.is_none()),
            device@.limits.max_storage_buffers_per_shader_stage != 0 ==> r@ == RenderBufferArrayView::Storage(
                BufferArrayView {
                    label: None,
                    data: Seq::empty(),
                    buffer: None,
                    element_size: element_size as usize,
                    usage,
                    is_dirty: false,
                },
            ),
    {
        if device.limits().max_storage_buffers_per_shader_stage == 0 {
            RenderBufferArray::Uniform(BatchedStorageBuffer::new(device, element_size).with_usage(usage))
        } else {
            RenderBufferArray::Storage(BufferArray::new(usage, element_size as usize))
        }
    }

    pub fn label(&self) -> (r: &Label)
        ensures
            *r == match self@ {
                RenderBufferArrayView::Uniform(b) => b.label,
                RenderBufferArrayView::Storage(a) => a.label,
            },
    {
        match self {
            RenderBufferArray::Uniform(b) => b.label(),
            RenderBufferArray::Storage(a) => a.label(),
        }
    }

    /// The GPU buffer, once created.
    pub fn buffer(&self) -> (r: Option<&Buffer>)
        ensures
            opt_view(match r {
                Some(b) => Some(*b),
                None => None,
            }) == match self@ {
                RenderBufferArrayView::Uniform(b) => b.buffer.buffer,
                RenderBufferArrayView::Storage(a) => a.buffer,
            },
    {
        match self {
            RenderBufferArray::Uniform(b) => b.inner(),
            RenderBufferArray::Storage(a) => a.buffer(),
        }
    }

    /// A slice of the GPU buffer between two byte bounds, once there is one.
    pub fn slice(&self, start: SliceBound, end: SliceBound) -> (r: Option<BufferSlice>)
        requires
            start matches SliceBound::Excluded(s) ==> s < u64::MAX,
            end matches SliceBound::Included(e) ==> e < u64::MAX,
        ensures
            match match self@ {
                RenderBufferArrayView::Uniform(b) => b.buffer.buffer,
                RenderBufferArrayView::Storage(a) => a.buffer,
            } {
                Some(b) => r matches Some(s) && s@ == (BufferSliceId {
                    id: b.id,
                    start: spec_start(start),
                    end: spec_end(end, b.size),
                }),
                None => r is None,
            },
    {
        match self.buffer() {
            Some(b) => Some(b.slice(start, end)),
            None => None,
        }
    }

    pub fn usage(&self) -> (r: BufferUsages)
        ensures
            r == match self@ {
                RenderBufferArrayView::Uniform(b) => b.buffer.usage,
                RenderBufferArrayView::Storage(a) => a.usage,
            },
    {
        match self {
            RenderBufferArray::Uniform(b) => b.usage(),
            RenderBufferArray::Storage(a) => a.usage(),
        }
    }

    /// Whether no value was pushed.
    pub fn is_empty(&self) -> (r: bool)
        ensures
            r == match self@ {
                RenderBufferArrayView::Uniform(b) => b.batch.len() == 0 && b.buffer.data.len() == 0,
                RenderBufferArrayView::Storage(a) => a.data.len() == 0,
            },
    {
        match self {
            RenderBufferArray::Uniform(b) => b.is_empty(),
            RenderBufferArray::Storage(a) => a.is_empty(),
        }
    }

    /// The whole GPU buffer as a binding, once created.
    pub fn binding(&self) -> (r: Option<BindingResource>)
        ensures
            match match self@ {
                RenderBufferArrayView::Uniform(b) => b.buffer.buffer,
                RenderBufferArrayView::Storage(a) => a.buffer,
            } {
                Some(b) => r == Some(BindingResource::Buffer { id: b.id, offset: 0, size: None }),
                None => r is None,
            },
    {
        match self {
            RenderBufferArray::Uniform(b) => b.binding(),
            RenderBufferArray::Storage(a) => a.binding(),
        }
    }

    /// Brings the GPU buffer up to date: batched values flush their batch
    /// and write the storage buffer; stored values sync the buffer with the bytes.
    pub fn update(&mut self, device: &mut RenderDevice)
        requires
            old(device)@.next_id < u64::MAX,
            match old(self)@ {
                RenderBufferArrayView::Uniform(b) => batched_wf(b) && batch_fits(b) && vstd::math::max(
                    b.buffer.data.len() as int,
                    b.buffer.offset + b.batch_size * b.element_size,
                ) + 3 <= u64::MAX,
                RenderBufferArrayView::Storage(a) => a.data.len() + 3 <= u64::MAX,
            },
        ensures
            match (old(self)@, final(self)@) {
                (RenderBufferArrayView::Uniform(b), RenderBufferArrayView::Uniform(fb)) => batched_wf(fb)
                    && batched_synced(b, fb, old(device)@, final(device)@) && fb.batch.len() == 0
                    && fb.buffer.buffer is Some,
                (RenderBufferArrayView::Storage(a), RenderBufferArrayView::Storage(fa)) => {
                    &&& a.data.len() == 0 ==> fa == a && final(device)@ == old(device)@
                    &&& a.data.len() > 0 ==> {
                        &&& fa == (BufferArrayView { buffer: fa.buffer, is_dirty: false, ..a })
                        &&& buffer_synced(
                            a.buffer,
                            fa.buffer,
                            a.data,
                            a.is_dirty,
                            a.label,
                            a.usage,
                            old(device)@,
                            final(device)@,
                        )
                    }
                },
                _ => false,
            },
    {
        match self {
            RenderBufferArray::Uniform(b) => b.update(device),
            RenderBufferArray::Storage(a) => a.update(device),
        }
    }

    /// Adds a value: batched values get their index in the batch and the
    /// batch's dynamic offset; stored values get their index (truncated to
    /// 32 bits) and no offset.
    pub fn push(&mut self, value: Vec<u8>) -> (r: BufferArrayIndex)
        requires
            can_push(old(self)@, value@.len()),
        ensures
            match (old(self)@, final(self)@) {
                (RenderBufferArrayView::Uniform(b), RenderBufferArrayView::Uniform(fb)) => {
                    &&& r == (BufferArrayIndex { index: b.batch.len() as u32, dynamic_offset: Some(b.offset as u32) })
                    &&& r.dynamic_offset matches Some(o) && o % b.alignment == 0
                    &&& fb == after_push(b, value)
                    &&& batched_wf(fb)
                },
                (RenderBufferArrayView::Storage(a), RenderBufferArrayView::Storage(fa)) => {
                    &&& r == (BufferArrayIndex {
                        index: (a.data.len() as int / (a.element_size as int)) as u32,
                        dynamic_offset: None,
                    })
                    &&& fa == (BufferArrayView { data: a.data + value@, ..a })
                },
                _ => false,
            },
    {
        match self {
            RenderBufferArray::Uniform(b) => b.push(value),
            RenderBufferArray::Storage(a) => {
                let i = a.push(value.as_slice());
                BufferArrayIndex::new(i as u32, None)
            },
        }
    }
}

/// What `get` gives back after `set`: the value written into the slot; the
/// bytes keep their number, and those outside the slot are unchanged.
pub proof fn lemma_get_after_set(data: Seq<u8>, index: int, element_size: int, value: Seq<u8>)
    requires
        0 <= index,
        element_size > 0,
        value.len() == element_size,
        index * element_size + element_size <= data.len(),
    ensures
        ({
            let at = index * element_size;
            let w = spec_write_at(data, at, value);
            &&& w.subrange(at, at + element_size) == value
            &&& w.len() == data.len()
            &&& forall|j: int| 0 <= j < data.len() && !(at <= j < at + element_size) ==> #[trigger] w[j] == data[j]
        }),
{
    let at = index * element_size;
    assert(index * element_size >= 0) by (nonlinear_arith)
        requires
            index >= 0,
            element_size > 0,
    ;
    let w = spec_write_at(data, at, value);
    assert(w.subrange(at, at + element_size) =~= value);
}

} // verus!
