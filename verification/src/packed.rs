use crate::asset::filter_by_mask;
use crate::buffer::{clone_label, recorded_one, spec_padded_size, Buffer, BufferView};
use crate::bytes::copy_range;
use crate::device::{DeviceCommand, Label, RenderDevice};
use crate::flags::BufferUsages;
use crate::storage::{concat_bytes, lemma_concat_len};
use vstd::prelude::*;

verus! {

/// `n` zero bytes.
pub open spec fn zero_bytes(n: int) -> Seq<u8> {
    Seq::new(n as nat, |i: int| 0u8)
}

/// Each value followed by `pad` zero bytes, one after the other.
pub open spec fn padded_concat(values: Seq<Vec<u8>>, pad: int) -> Seq<u8>
    decreases values.len(),
{
    if values.len() == 0 {
        Seq::empty()
    } else {
        padded_concat(values.drop_last(), pad) + values.last()@ + zero_bytes(pad)
    }
}

/// Appends `bytes`.
pub fn append_bytes(out: &mut Vec<u8>, bytes: &[u8])
    requires
        old(out)@.len() + bytes@.len() <= usize::MAX,
    ensures
        final(out)@ == old(out)@ + bytes@,
{
    let ghost start = out@;
    let mut j: usize = 0;
    while j < bytes.len()
        invariant
            j <= bytes@.len(),
            out@ == start + bytes@.subrange(0, j as int),
            start.len() + bytes@.len() <= usize::MAX,
        decreases bytes@.len() - j,
    {
        out.push(bytes[j]);
        j = j + 1;
        assert(out@ =~= start + bytes@.subrange(0, j as int));
    }
    assert(bytes@.subrange(0, bytes@.len() as int) =~= bytes@);
}

/// Appends `n` zero bytes.
pub fn append_zeros(out: &mut Vec<u8>, n: usize)
    requires
        old(out)@.len() + n <= usize::MAX,
    ensures
        final(out)@ == old(out)@ + zero_bytes(n as int),
{
    let ghost start = out@;
    let mut j: usize = 0;
    while j < n
        invariant
            j <= n,
            out@ == start + zero_bytes(j as int),
            start.len() + n <= usize::MAX,
        decreases n - j,
    {
        out.push(0u8);
        j = j + 1;
        assert(out@ =~= start + zero_bytes(j as int));
    }
}

/// Values of `size` bytes, each followed by `pad` zeros, take
/// `values.len() * (size + pad)` bytes.
pub proof fn lemma_padded_len(values: Seq<Vec<u8>>, size: int, pad: int)
    requires
        pad >= 0,
        forall|i: int| 0 <= i < values.len() ==> #[trigger] values[i]@.len() == size,
    ensures
        padded_concat(values, pad).len() == values.len() * (size + pad),
    decreases values.len(),
{
    if values.len() > 0 {
        assert forall|i: int| 0 <= i < values.drop_last().len() implies #[trigger] values.drop_last()[i]@.len()
            == size by {
            assert(values.drop_last()[i] == values[i]);
        }
        lemma_padded_len(values.drop_last(), size, pad);
        assert(values.len() * (size + pad) == (values.len() - 1) * (size + pad) + (size + pad)) by (nonlinear_arith);
    }
}

/// Concatenates the values, each followed by `pad` zeros.
pub fn padded_values(values: &[Vec<u8>], pad: usize) -> (r: Vec<u8>)
    requires
        padded_concat(values@, pad as int).len() <= usize::MAX,
    ensures
        r@ == padded_concat(values@, pad as int),
{
    let mut out: Vec<u8> = Vec::new();
    let mut i: usize = 0;
    while i < values.len()
        invariant
            i <= values@.len(),
            out@ == padded_concat(values@.subrange(0, i as int), pad as int),
            padded_concat(values@, pad as int).len() <= usize::MAX,
        decreases values@.len() - i,
    {
        proof {
            lemma_padded_prefix(values@, pad as int, i as int + 1);
            assert(values@.subrange(0, i + 1).drop_last() =~= values@.subrange(0, i as int));
        }
        append_bytes(&mut out, values[i].as_slice());
        append_zeros(&mut out, pad);
        i = i + 1;
    }
    assert(values@.subrange(0, values@.len() as int) =~= values@);
    out
}

proof fn lemma_padded_prefix(values: Seq<Vec<u8>>, pad: int, n: int)
    requires
        0 <= n <= values.len(),
        pad >= 0,
    ensures
        padded_concat(values.subrange(0, n), pad).len() <= padded_concat(values, pad).len(),
    decreases values.len(),
{
    if n < values.len() {
        lemma_padded_prefix(values.drop_last(), pad, n);
        assert(values.drop_last().subrange(0, n) =~= values.subrange(0, n));
    } else {
        assert(values.subrange(0, n) =~= values);
    }
}

/// The abstract state of a packed uniform buffer.
pub struct UniformBufferView {
    pub value: Seq<u8>,
    pub buffer: BufferView,
    pub is_dirty: bool,
}

/// A uniform buffer holding the raw bytes of one value.
pub struct UniformBuffer {
    value: Vec<u8>,
    buffer: Buffer,
    is_dirty: bool,
}

impl View for UniformBuffer {
    type V = UniformBufferView;

    closed spec fn view(&self) -> UniformBufferView {
        UniformBufferView { value: self.value@, buffer: self.buffer@, is_dirty: self.is_dirty }
    }
}

impl UniformBuffer {
    /// Creates the buffer holding `value`, with `usage` plus `UNIFORM`.
    pub fn new(device: &mut RenderDevice, value: Vec<u8>, usage: BufferUsages, label: Label) -> (r: UniformBuffer)
        requires
            old(device)@.next_id < u64::MAX,
            value@.len() + 3 <= u64::MAX,
        ensures
            r@.value == value@,
            !r@.is_dirty,
            r@.buffer == (BufferView {
                id: old(device)@.next_id,
                label,
                size: spec_padded_size(value@.len() as int) as u64,
                usage: BufferUsages { bits: usage.bits | 64 },
            }),
            crate::buffer::allocated_one(old(device)@, final(device)@),
            crate::buffer::create_command_matches(final(device)@.commands.last(), r@.buffer, Some(value@)),
    {
        let buffer = Buffer::with_data(device, value.as_slice(), usage.union(BufferUsages::uniform()), label);
        UniformBuffer { value, buffer, is_dirty: false }
    }

    pub fn id(&self) -> (r: u64)
        ensures
            r == self@.buffer.id,
    {
        self.buffer.id()
    }

    pub fn value(&self) -> (r: &[u8])
        ensures
            r@ == self@.value,
    {
        self.value.as_slice()
    }

    pub fn buffer(&self) -> (r: &Buffer)
        ensures
            r@ == self@.buffer,
    {
        &self.buffer
    }

    pub fn is_dirty(&self) -> (r: bool)
        ensures
            r == self@.is_dirty,
    {
        self.is_dirty
    }

    /// Replaces the value and marks the buffer dirty.
    pub fn set(&mut self, value: Vec<u8>)
        ensures
            final(self)@ == (UniformBufferView { value: value@, is_dirty: true, ..old(self)@ }),
    {
        self.value = value;
        self.is_dirty = true;
    }

    /// When dirty, writes the value's bytes (as many as the buffer holds)
    /// and marks it clean.
    pub fn update(&mut self, device: &mut RenderDevice)
        requires
            old(self)@.value.len() <= u64::MAX,
        ensures
            !old(self)@.is_dirty ==> final(self)@ == old(self)@ && final(device)@ == old(device)@,
            old(self)@.is_dirty ==> {
                &&& final(self)@ == (UniformBufferView { is_dirty: false, ..old(self)@ })
                &&& recorded_one(old(device)@, final(device)@)
                &&& final(device)@.commands.last() matches DeviceCommand::WriteBuffer { id, offset, data: d }
                    && id == old(self)@.buffer.id && offset == 0 && d@ == old(self)@.value.subrange(
                    0,
                    vstd::math::min(old(self)@.value.len() as int, old(self)@.buffer.size as int),
                )
            },
    {
        if self.is_dirty {
            self.buffer.update(device, 0, self.value.as_slice());
            self.is_dirty = false;
        }
    }
}

/// The abstract state of a packed uniform buffer array.
pub struct UniformBufferArrayView {
    pub data: Seq<u8>,
    pub buffer: BufferView,
    pub is_dirty: bool,
    pub max_amount: usize,
    pub alignment: usize,
    pub item_size: usize,
    pub value_size: usize,
}

/// Values of `value_size` bytes packed one after another, each padded
/// towards the device's uniform offset alignment, in one uniform buffer.
pub struct UniformBufferArray {
    data: Vec<u8>,
    buffer: Buffer,
    is_dirty: bool,
    max_amount: usize,
    alignment: usize,
    item_size: usize,
    value_size: usize,
}

impl View for UniformBufferArray {
    type V = UniformBufferArrayView;

    closed spec fn view(&self) -> UniformBufferArrayView {
        UniformBufferArrayView {
            data: self.data@,
            buffer: self.buffer@,
            is_dirty: self.is_dirty,
            max_amount: self.max_amount,
            alignment: self.alignment,
            item_size: self.item_size,
            value_size: self.value_size,
        }
    }
}

/// The slot a value of `size` bytes takes at `alignment`: the size plus the
/// distance to the next multiple of the alignment (a whole alignment when
/// the size is already a multiple).
pub open spec fn item_size(size: int, alignment: int) -> int {
    size + (alignment - size % alignment)
}

impl UniformBufferArray {
    /// Packs `values` (each `value_size` bytes) into a new buffer.
    pub fn new(device: &mut RenderDevice, values: Vec<Vec<u8>>, value_size: usize, usage: BufferUsages, label: Label) -> (r:
        UniformBufferArray)
        requires
            old(device)@.next_id < u64::MAX,
            old(device)@.limits.min_uniform_buffer_offset_alignment > 0,
            value_size > 0,
            value_size + old(device)@.limits.min_uniform_buffer_offset_alignment <= usize::MAX,
            forall|i: int| 0 <= i < values@.len() ==> #[trigger] values@[i]@.len() == value_size,
            values@.len() * item_size(
                value_size as int,
                old(device)@.limits.min_uniform_buffer_offset_alignment as int,
            ) + 3 <= usize::MAX,
        ensures
            ({
                let alignment = old(device)@.limits.min_uniform_buffer_offset_alignment as int;
                let item = item_size(value_size as int, alignment);
                let data = padded_concat(values@, item - value_size);
                &&& r@ == (UniformBufferArrayView {
                    data,
                    buffer: BufferView {
                        id: old(device)@.next_id,
                        label,
                        size: spec_padded_size(data.len() as int) as u64,
                        usage,
                    },
                    is_dirty: false,
                    max_amount: (old(device)@.limits.max_uniform_buffer_binding_size as int / value_size as int) as usize,
                    alignment: alignment as usize,
                    item_size: item as usize,
                    value_size,
                })
                &&& crate::buffer::allocated_one(old(device)@, final(device)@)
                &&& crate::buffer::create_command_matches(final(device)@.commands.last(), r@.buffer, Some(data))
            }),
    {
        let limits = device.limits();
        let alignment = limits.min_uniform_buffer_offset_alignment as usize;
        let item = value_size + (alignment - value_size % alignment);
        let padding = item - value_size;
        let max_amount = limits.max_uniform_buffer_binding_size as usize / value_size;
        proof {
            lemma_padded_len(values@, value_size as int, padding as int);
        }
        let data = padded_values(values.as_slice(), padding);
        let buffer = Buffer::with_data(device, data.as_slice(), usage, label);
        UniformBufferArray {
            data,
            buffer,
            is_dirty: false,
            max_amount,
            alignment,
            item_size: item,
            value_size,
        }
    }

    /// How many values one binding of the buffer may hold.
    pub fn max_amount(&self) -> (r: usize)
        ensures
            r == self@.max_amount,
    {
        self.max_amount
    }

    pub fn id(&self) -> (r: u64)
        ensures
            r == self@.buffer.id,
    {
        self.buffer.id()
    }

    pub fn data(&self) -> (r: &[u8])
        ensures
            r@ == self@.data,
    {
        self.data.as_slice()
    }

    /// The bytes of the value in slot `index`.
    pub fn value(&self, index: usize) -> (r: Vec<u8>)
        requires
            index * self@.item_size + self@.value_size <= self@.data.len(),
        ensures
            r@ == self@.data.subrange(
                index * self@.item_size,
                index * self@.item_size + self@.value_size,
            ),
    {
        let n = self.data.len();
        proof {
            assert(index * self.item_size <= n);
        }
        let offset = index * self.item_size;
        copy_range(self.data.as_slice(), offset, offset + self.value_size)
    }

    pub fn buffer(&self) -> (r: &Buffer)
        ensures
            r@ == self@.buffer,
    {
        &self.buffer
    }

    /// The byte count divided by the value size.
    pub fn len(&self) -> (r: usize)
        requires
            self@.value_size > 0,
        ensures
            r == self@.data.len() as int / (self@.value_size as int),
    {
        self.data.len() / self.value_size
    }

    /// The number of bytes.
    pub fn size(&self) -> (r: usize)
        ensures
            r == self@.data.len(),
    {
        self.data.len()
    }

    /// Appends the value followed by a whole alignment of zeros.
    pub fn push(&mut self, value: &[u8])
        requires
            old(self)@.data.len() + value@.len() + old(self)@.alignment <= usize::MAX,
        ensures
            final(self)@ == (UniformBufferArrayView {
                data: old(self)@.data + value@ + zero_bytes(old(self)@.alignment as int),
                is_dirty: true,
                ..old(self)@
            }),
    {
        append_bytes(&mut self.data, value);
        append_zeros(&mut self.data, self.alignment);
        self.is_dirty = true;
    }

    /// Appends the values, each followed by a whole alignment of zeros;
    /// `offset` must name a slot below `len()`.
    pub fn set(&mut self, offset: usize, values: &[Vec<u8>])
        requires
            old(self)@.value_size > 0,
            offset < old(self)@.data.len() as int / (old(self)@.value_size as int),
            old(self)@.data.len() + padded_concat(values@, old(self)@.alignment as int).len() <= usize::MAX,
        ensures
            final(self)@ == (UniformBufferArrayView {
                data: old(self)@.data + padded_concat(values@, old(self)@.alignment as int),
                is_dirty: true,
                ..old(self)@
            }),
    {
        proof {
            lemma_padded_prefix(values@, self.alignment as int, 0);
        }
        let bytes = padded_values(values, self.alignment);
        append_bytes(&mut self.data, bytes.as_slice());
        self.is_dirty = true;
    }

    /// Takes out the `value_size` bytes of slot `index` (the padding stays).
    pub fn remove(&mut self, index: usize) -> (r: Vec<u8>)
        requires
            index * old(self)@.item_size + old(self)@.value_size <= old(self)@.data.len(),
        ensures
            ({
                let start = index * old(self)@.item_size;
                let end = start + old(self)@.value_size;
                &&& r@ == old(self)@.data.subrange(start, end)
                &&& final(self)@ == (UniformBufferArrayView {
                    data: old(self)@.data.subrange(0, start) + old(self)@.data.subrange(end, old(self)@.data.len() as int),
                    is_dirty: true,
                    ..old(self)@
                })
            }),
    {
        let n = self.data.len();
        proof {
            assert(index * self.item_size <= n);
        }
        let start = index * self.item_size;
        let end = start + self.value_size;
        let removed = copy_range(self.data.as_slice(), start, end);
        let head = copy_range(self.data.as_slice(), 0, start);
        let tail = copy_range(self.data.as_slice(), end, self.data.len());
        let mut data = head;
        append_bytes(&mut data, tail.as_slice());
        self.data = data;
        self.is_dirty = true;
        removed
    }

    /// Drops all values and marks the array dirty.
    pub fn clear(&mut self)
        ensures
            final(self)@ == (UniformBufferArrayView { data: Seq::empty(), is_dirty: true, ..old(self)@ }),
    {
        self.data = Vec::new();
        self.is_dirty = true;
    }

    pub fn is_dirty(&self) -> (r: bool)
        ensures
            r == self@.is_dirty,
    {
        self.is_dirty
    }

    /// When dirty, writes the bytes of at most `max_amount` slots to the
    /// buffer (as many as it holds). The array stays dirty.
    pub fn update(&mut self, device: &mut RenderDevice)
        requires
            old(self)@.max_amount * old(self)@.item_size <= usize::MAX,
            old(self)@.data.len() <= u64::MAX,
        ensures
            final(self)@ == old(self)@,
            !old(self)@.is_dirty ==> final(device)@ == old(device)@,
            old(self)@.is_dirty ==> {
                let amount = vstd::math::min(
                    old(self)@.data.len() as int,
                    old(self)@.max_amount * old(self)@.item_size,
                );
                &&& recorded_one(old(device)@, final(device)@)
                &&& final(device)@.commands.last() matches DeviceCommand::WriteBuffer { id, offset, data: d }
                    && id == old(self)@.buffer.id && offset == 0 && d@ == old(self)@.data.subrange(
                    0,
                    vstd::math::min(amount, old(self)@.buffer.size as int),
                )
            },
    {
        if self.is_dirty {
            let limit = self.max_amount * self.item_size;
            let amount = if self.data.len() < limit {
                self.data.len()
            } else {
                limit
            };
            let bytes = copy_range(self.data.as_slice(), 0, amount);
            self.buffer.update(device, 0, bytes.as_slice());
            proof {
                assert(bytes@.subrange(0, vstd::math::min(amount as int, self.buffer@.size as int))
                    =~= self.data@.subrange(0, vstd::math::min(amount as int, self.buffer@.size as int)));
            }
        }
    }
}

/// The abstract state of a fixed-size uniform buffer.
pub struct StaticUniformBufferView {
    pub data: Seq<u8>,
    pub buffer: BufferView,
    pub alignment: usize,
    pub item_size: usize,
    pub value_size: usize,
    pub is_dirty: bool,
}

/// `N` values of `value_size` bytes, each padded to the device's uniform
/// offset alignment, in one uniform buffer.
pub struct StaticUniformBuffer<const N: usize> {
    data: Vec<u8>,
    buffer: Buffer,
    alignment: usize,
    item_size: usize,
    value_size: usize,
    is_dirty: bool,
}

impl<const N: usize> View for StaticUniformBuffer<N> {
    type V = StaticUniformBufferView;

    closed spec fn view(&self) -> StaticUniformBufferView {
        StaticUniformBufferView {
            data: self.data@,
            buffer: self.buffer@,
            alignment: self.alignment,
            item_size: self.item_size,
            value_size: self.value_size,
            is_dirty: self.is_dirty,
        }
    }
}

impl<const N: usize> StaticUniformBuffer<N> {
    /// Packs the `N` values into a new buffer with `usage` plus `UNIFORM`.
    pub fn new(device: &mut RenderDevice, values: Vec<Vec<u8>>, value_size: usize, usage: BufferUsages, label: Label) -> (r:
        StaticUniformBuffer<N>)
        requires
            old(device)@.next_id < u64::MAX,
            old(device)@.limits.min_uniform_buffer_offset_alignment > 0,
            values@.len() == N,
            value_size + old(device)@.limits.min_uniform_buffer_offset_alignment <= usize::MAX,
            forall|i: int| 0 <= i < values@.len() ==> #[trigger] values@[i]@.len() == value_size,
            N * item_size(value_size as int, old(device)@.limits.min_uniform_buffer_offset_alignment as int) + 3
                <= usize::MAX,
        ensures
            ({
                let alignment = old(device)@.limits.min_uniform_buffer_offset_alignment as int;
                let item = item_size(value_size as int, alignment);
                let data = padded_concat(values@, item - value_size);
                &&& r@ == (StaticUniformBufferView {
                    data,
                    buffer: BufferView {
                        id: old(device)@.next_id,
                        label,
                        size: spec_padded_size(data.len() as int) as u64,
                        usage: BufferUsages { bits: usage.bits | 64 },
                    },
                    alignment: alignment as usize,
                    item_size: item as usize,
                    value_size,
                    is_dirty: false,
                })
                &&& crate::buffer::allocated_one(old(device)@, final(device)@)
                &&& crate::buffer::create_command_matches(final(device)@.commands.last(), r@.buffer, Some(data))
            }),
    {
        let alignment = device.limits().min_uniform_buffer_offset_alignment as usize;
        let item = value_size + (alignment - value_size % alignment);
        let padding = alignment - value_size % alignment;
        proof {
            lemma_padded_len(values@, value_size as int, padding as int);
        }
        let data = padded_values(values.as_slice(), padding);
        let buffer = Buffer::with_data(device, data.as_slice(), usage.union(BufferUsages::uniform()), label);
        StaticUniformBuffer { data, buffer, alignment, item_size: item, value_size, is_dirty: false }
    }

    pub fn id(&self) -> (r: u64)
        ensures
            r == self@.buffer.id,
    {
        self.buffer.id()
    }

    pub fn data(&self) -> (r: &[u8])
        ensures
            r@ == self@.data,
    {
        self.data.as_slice()
    }

    /// The bytes of the value in slot `index`.
    pub fn value(&self, index: usize) -> (r: Vec<u8>)
        requires
            index * self@.item_size + self@.value_size <= self@.data.len(),
        ensures
            r@ == self@.data.subrange(
                index * self@.item_size,
                index * self@.item_size + self@.value_size,
            ),
    {
        let n = self.data.len();
        proof {
            assert(index * self.item_size <= n);
        }
        let offset = index * self.item_size;
        copy_range(self.data.as_slice(), offset, offset + self.value_size)
    }

    pub fn buffer(&self) -> (r: &Buffer)
        ensures
            r@ == self@.buffer,
    {
        &self.buffer
    }

    pub fn is_dirty(&self) -> (r: bool)
        ensures
            r == self@.is_dirty,
    {
        self.is_dirty
    }

    /// The number of values, `N`.
    pub fn len(&self) -> (r: usize)
        ensures
            r == N,
    {
        N
    }

    /// Writes the value into slot `index`, then zeroes the bytes from its
    /// end up to the slot's padding length; the padding must be at least as
    /// long as a value.
    pub fn set(&mut self, index: usize, value: &[u8])
        requires
            value@.len() == old(self)@.value_size,
            old(self)@.item_size >= 2 * old(self)@.value_size,
            index * old(self)@.item_size + old(self)@.item_size <= old(self)@.data.len(),
        ensures
            ({
                let start = index * old(self)@.item_size;
                let end = start + old(self)@.value_size;
                let pad_end = start + old(self)@.item_size - old(self)@.value_size;
                &&& final(self)@ == (StaticUniformBufferView {
                    data: Seq::new(
                        old(self)@.data.len(),
                        |i: int|
                            if start <= i < end {
                                value@[i - start]
                            } else if end <= i < pad_end {
                                0u8
                            } else {
                                old(self)@.data[i]
                            },
                    ),
                    is_dirty: true,
                    ..old(self)@
                })
            }),
    {
        let n = self.data.len();
        proof {
            assert(index * self.item_size <= n);
        }
        let start = index * self.item_size;
        let end = start + self.value_size;
        let pad_end = start + self.item_size - self.value_size;
        let ghost original = self.data@;
        let mut data = Vec::new();
        std::mem::swap(&mut data, &mut self.data);
        let mut i: usize = start;
        while i < pad_end
            invariant
                start <= i <= pad_end,
                end <= pad_end <= original.len(),
                end == start + value@.len(),
                data@.len() == original.len(),
                forall|j: int|
                    0 <= j < original.len() ==> #[trigger] data@[j] == (if start <= j < end && j < i {
                        value@[j - start]
                    } else if end <= j < pad_end && j < i {
                        0u8
                    } else {
                        original[j]
                    }),
            decreases pad_end - i,
        {
            if i < end {
                data.set(i, value[i - start]);
            } else {
                data.set(i, 0u8);
            }
            i = i + 1;
        }
        self.data = data;
        self.is_dirty = true;
        proof {
            let expected = Seq::new(
                original.len(),
                |j: int|
                    if start <= j < end {
                        value@[j - start]
                    } else if end <= j < pad_end {
                        0u8
                    } else {
                        original[j]
                    },
            );
            assert(self.data@ =~= expected);
        }
    }

    /// Replaces all values, each followed by a whole alignment of zeros; the
    /// value size must be a multiple of the alignment.
    pub fn replace(&mut self, values: &[Vec<u8>])
        requires
            values@.len() == N,
            forall|i: int| 0 <= i < values@.len() ==> #[trigger] values@[i]@.len() == old(self)@.value_size,
            padded_concat(values@, old(self)@.alignment as int).len() == old(self)@.data.len(),
        ensures
            final(self)@ == (StaticUniformBufferView {
                data: padded_concat(values@, old(self)@.alignment as int),
                is_dirty: true,
                ..old(self)@
            }),
    {
        let n = self.data.len();
        assert(padded_concat(values@, self.alignment as int).len() == n);
        self.data = padded_values(values, self.alignment);
        self.is_dirty = true;
    }

    /// Writes all bytes (as many as the buffer holds); the dirty flag is not
    /// consulted or changed.
    pub fn update(&mut self, device: &mut RenderDevice)
        requires
            old(self)@.data.len() <= u64::MAX,
        ensures
            final(self)@ == old(self)@,
            recorded_one(old(device)@, final(device)@),
            final(device)@.commands.last() matches DeviceCommand::WriteBuffer { id, offset, data: d } && id == old(self)@.buffer.id && offset == 0 && d@ == old(self)@.data.subrange(
                0,
                vstd::math::min(old(self)@.data.len() as int, old(self)@.buffer.size as int),
            ),
    {
        self.buffer.update(device, 0, self.data.as_slice());
    }
}

/// The `k`-th run of at most `max` consecutive values.
pub open spec fn chunk(values: Seq<Vec<u8>>, max: int, k: int) -> Seq<Vec<u8>> {
    values.subrange(k * max, vstd::math::min((k + 1) * max, values.len() as int))
}

/// Concatenates the values at positions `start` to `end`.
fn concat_range(values: &Vec<Vec<u8>>, start: usize, end: usize, value_size: usize) -> (r: Vec<u8>)
    requires
        start <= end <= values@.len(),
        forall|i: int| 0 <= i < values@.len() ==> #[trigger] values@[i]@.len() == value_size,
        values@.len() * value_size <= usize::MAX,
    ensures
        r@ == concat_bytes(values@.subrange(start as int, end as int)),
{
    let mut out: Vec<u8> = Vec::new();
    let mut i: usize = start;
    while i < end
        invariant
            start <= i <= end <= values@.len(),
            forall|j: int| 0 <= j < values@.len() ==> #[trigger] values@[j]@.len() == value_size,
            values@.len() * value_size <= usize::MAX,
            out@ == concat_bytes(values@.subrange(start as int, i as int)),
        decreases end - i,
    {
        let ghost sub = values@.subrange(start as int, i + 1);
        proof {
            assert(sub.drop_last() =~= values@.subrange(start as int, i as int));
            assert forall|j: int| 0 <= j < sub.len() implies #[trigger] sub[j]@.len() == value_size by {
                assert(sub[j] == values@[start + j]);
            }
            lemma_concat_len(sub, value_size as int);
            assert(sub.len() * value_size <= values@.len() * value_size) by (nonlinear_arith)
                requires
                    sub.len() <= values@.len(),
            ;
        }
        append_bytes(&mut out, values[i].as_slice());
        i = i + 1;
    }
    out
}

/// The abstract state of batched uniform buffers.
pub struct BatchedUniformBuffersView {
    pub values: Seq<Vec<u8>>,
    pub buffers: Seq<BufferView>,
    pub is_dirty: bool,
    pub max_amount: usize,
}

/// Values split into runs of at most `max_amount`, one uniform buffer per run.
pub struct BatchedUniformBuffers {
    values: Vec<Vec<u8>>,
    buffers: Vec<Buffer>,
    is_dirty: bool,
    max_amount: usize,
}

impl View for BatchedUniformBuffers {
    type V = BatchedUniformBuffersView;

    closed spec fn view(&self) -> BatchedUniformBuffersView {
        BatchedUniformBuffersView {
            values: self.values@,
            buffers: Seq::new(self.buffers@.len(), |i: int| self.buffers@[i]@),
            is_dirty: self.is_dirty,
            max_amount: self.max_amount,
        }
    }
}

impl BatchedUniformBuffers {
    /// Splits `values` (each `value_size` bytes) into runs of as many values
    /// as one uniform binding may hold, and creates one buffer per run.
    pub fn new(device: &mut RenderDevice, values: Vec<Vec<u8>>, value_size: usize, usage: BufferUsages, label: Label) -> (r:
        BatchedUniformBuffers)
        requires
            value_size > 0,
            old(device)@.limits.max_uniform_buffer_binding_size >= value_size,
            forall|i: int| 0 <= i < values@.len() ==> #[trigger] values@[i]@.len() == value_size,
            values@.len() * value_size + 3 <= usize::MAX,
            old(device)@.next_id + values@.len() < u64::MAX,
        ensures
            ({
                let max = old(device)@.limits.max_uniform_buffer_binding_size as int / value_size as int;
                let n = r@.buffers.len();
                &&& r@.values == values@
                &&& !r@.is_dirty
                &&& r@.max_amount == max
                &&& n * max >= values@.len()
                &&& n == 0 || (n - 1) * max < values@.len()
                &&& final(device)@.limits == old(device)@.limits
                &&& final(device)@.next_id == old(device)@.next_id + n
                &&& final(device)@.commands.len() == old(device)@.commands.len() + n
                &&& final(device)@.commands.subrange(0, old(device)@.commands.len() as int) == old(device)@.commands
                &&& forall|k: int|
                    0 <= k < n ==> {
                        let bytes = concat_bytes(#[trigger] chunk(values@, max, k));
                        &&& r@.buffers[k] == BufferView {
                            id: (old(device)@.next_id + k) as u64,
                            label,
                            size: spec_padded_size(bytes.len() as int) as u64,
                            usage,
                        }
                        &&& crate::buffer::create_command_matches(
                            final(device)@.commands[old(device)@.commands.len() + k],
                            r@.buffers[k],
                            Some(bytes),
                        )
                    }
            }),
    {
        let max_amount = device.limits().max_uniform_buffer_binding_size as usize / value_size;
        let ghost max = max_amount as int;
        let ghost d0 = device@;
        proof {
            let b = device@.limits.max_uniform_buffer_binding_size as int;
            assert(b / (value_size as int) >= 1) by (nonlinear_arith)
                requires
                    b >= value_size,
                    value_size > 0,
            ;
        }
        let len = values.len();
        let mut buffers: Vec<Buffer> = Vec::new();
        let mut start: usize = 0;
        while start < len
            invariant
                len == values@.len(),
                max == max_amount,
                max_amount >= 1,
                forall|i: int| 0 <= i < values@.len() ==> #[trigger] values@[i]@.len() == value_size,
                values@.len() * value_size + 3 <= usize::MAX,
                d0.next_id + values@.len() < u64::MAX,
                start <= len,
                buffers@.len() <= start,
                buffers@.len() * max >= start,
                start < len ==> start == buffers@.len() * max,
                buffers@.len() == 0 || (buffers@.len() - 1) * max < len,
                device@.limits == d0.limits,
                device@.next_id == d0.next_id + buffers@.len(),
                device@.commands.len() == d0.commands.len() + buffers@.len(),
                device@.commands.subrange(0, d0.commands.len() as int) == d0.commands,
                forall|k: int|
                    0 <= k < buffers@.len() ==> {
                        let bytes = concat_bytes(#[trigger] chunk(values@, max, k));
                        &&& buffers@[k]@ == BufferView {
                            id: (d0.next_id + k) as u64,
                            label,
                            size: spec_padded_size(bytes.len() as int) as u64,
                            usage,
                        }
                        &&& crate::buffer::create_command_matches(
                            device@.commands[d0.commands.len() + k],
                            buffers@[k]@,
                            Some(bytes),
                        )
                    },
            decreases len - start,
        {
            let end = if len - start > max_amount {
                start + max_amount
            } else {
                len
            };
            let ghost k = buffers@.len() as int;
            proof {
                assert(start == k * max);
                assert((k + 1) * max == k * max + max) by (nonlinear_arith);
                assert(end == vstd::math::min((k + 1) * max, len as int));
            }
            let bytes = concat_range(&values, start, end, value_size);
            proof {
                let sub = values@.subrange(start as int, end as int);
                assert forall|j: int| 0 <= j < sub.len() implies #[trigger] sub[j]@.len() == value_size by {
                    assert(sub[j] == values@[start + j]);
                }
                lemma_concat_len(sub, value_size as int);
                assert(sub.len() * value_size <= values@.len() * value_size) by (nonlinear_arith)
                    requires
                        sub.len() <= values@.len(),
                ;
                assert(chunk(values@, max, k) == sub);
            }
            let ghost dbefore = device@;
            let buffer = Buffer::with_data(device, bytes.as_slice(), usage, clone_label(&label));
            buffers.push(buffer);
            proof {
                assert(device@.commands.subrange(0, d0.commands.len() as int) =~= d0.commands) by {
                    assert(dbefore.commands.subrange(0, d0.commands.len() as int) == d0.commands);
                }
                assert forall|j: int|
                    0 <= j < buffers@.len() implies {
                        let bytes = concat_bytes(#[trigger] chunk(values@, max, j));
                        &&& buffers@[j]@ == BufferView {
                            id: (d0.next_id + j) as u64,
                            label,
                            size: spec_padded_size(bytes.len() as int) as u64,
                            usage,
                        }
                        &&& crate::buffer::create_command_matches(
                            device@.commands[d0.commands.len() + j],
                            buffers@[j]@,
                            Some(bytes),
                        )
                    } by {
                    if j < k {
                        assert(device@.commands[d0.commands.len() + j] == dbefore.commands[d0.commands.len() + j]);
                    }
                }
                assert((k + 1) * max == k * max + max) by (nonlinear_arith);
            }
            start = end;
        }

        let r = BatchedUniformBuffers { values, buffers, is_dirty: false, max_amount };
        proof {
            assert forall|k: int| 0 <= k < r.buffers@.len() implies #[trigger] r@.buffers[k] == r.buffers@[k]@ by {}
        }
        r
    }

    pub fn max_amount(&self) -> (r: usize)
        ensures
            r == self@.max_amount,
    {
        self.max_amount
    }

    /// The id of buffer `index`.
    pub fn id(&self, index: usize) -> (r: u64)
        requires
            index < self@.buffers.len(),
        ensures
            r == self@.buffers[index as int].id,
    {
        self.buffers[index].id()
    }

    pub fn buffers(&self) -> (r: &[Buffer])
        ensures
            r@.len() == self@.buffers.len(),
            forall|i: int| 0 <= i < r@.len() ==> #[trigger] r@[i]@ == self@.buffers[i],
    {
        self.buffers.as_slice()
    }

    pub fn buffer(&self, index: usize) -> (r: &Buffer)
        requires
            index < self@.buffers.len(),
        ensures
            r@ == self@.buffers[index as int],
    {
        &self.buffers[index]
    }

    pub fn values(&self) -> (r: &[Vec<u8>])
        ensures
            r@ == self@.values,
    {
        self.values.as_slice()
    }

    pub fn value(&self, index: usize) -> (r: &Vec<u8>)
        requires
            index < self@.values.len(),
        ensures
            *r == self@.values[index as int],
    {
        &self.values[index]
    }

    pub fn is_dirty(&self) -> (r: bool)
        ensures
            r == self@.is_dirty,
    {
        self.is_dirty
    }

    pub fn push(&mut self, value: Vec<u8>)
        ensures
            final(self)@ == (BatchedUniformBuffersView {
                values: old(self)@.values.push(value),
                is_dirty: true,
                ..old(self)@
            }),
    {
        self.values.push(value);
        self.is_dirty = true;
    }

    pub fn set(&mut self, index: usize, value: Vec<u8>)
        requires
            index < old(self)@.values.len(),
        ensures
            final(self)@ == (BatchedUniformBuffersView {
                values: old(self)@.values.update(index as int, value),
                is_dirty: true,
                ..old(self)@
            }),
    {
        self.values.set(index, value);
        self.is_dirty = true;
    }

    pub fn remove(&mut self, index: usize) -> (r: Vec<u8>)
        requires
            index < old(self)@.values.len(),
        ensures
            r == old(self)@.values[index as int],
            final(self)@ == (BatchedUniformBuffersView {
                values: old(self)@.values.remove(index as int),
                is_dirty: true,
                ..old(self)@
            }),
    {
        self.is_dirty = true;
        self.values.remove(index)
    }

    /// Keeps the values for which `f` answers true, in their order.
    pub fn retain<F: Fn(&Vec<u8>) -> bool>(&mut self, f: F)
        requires
            forall|v: Vec<u8>| f.requires((&v,)),
        ensures
            final(self)@.buffers == old(self)@.buffers,
            final(self)@.max_amount == old(self)@.max_amount,
            final(self)@.is_dirty,
            exists|keep: Seq<bool>|
                #![trigger filter_by_mask(old(self)@.values, keep)]
                {
                    &&& keep.len() == old(self)@.values.len()
                    &&& forall|i: int|
                        0 <= i < keep.len() ==> f.ensures((&old(self)@.values[i],), #[trigger] keep[i])
                    &&& final(self)@.values == filter_by_mask(old(self)@.values, keep)
                },
    {
        let ghost original = self.values@;
        let mut values: Vec<Vec<u8>> = Vec::new();
        std::mem::swap(&mut values, &mut self.values);
        let mut kept: Vec<Vec<u8>> = Vec::new();
        let ghost mut keep: Seq<bool> = Seq::empty();
        let ghost mut i: int = 0;
        while values.len() > 0
            invariant
                0 <= i <= original.len(),
                values@ == original.subrange(i, original.len() as int),
                keep.len() == i,
                forall|j: int| 0 <= j < i ==> f.ensures((&original[j],), #[trigger] keep[j]),
                kept@ == filter_by_mask(original.subrange(0, i), keep),
                forall|v: Vec<u8>| f.requires((&v,)),
                self@.buffers == old(self)@.buffers,
                self@.max_amount == old(self)@.max_amount,
            decreases values@.len(),
        {
            let v = values.remove(0);
            let k = f(&v);
            proof {
                assert(v == original[i]);
            }
            if k {
                kept.push(v);
            }
            proof {
                let s = original.subrange(0, i + 1);
                assert(s.drop_last() =~= original.subrange(0, i));
                let old_keep = keep;
                keep = keep.push(k);
                assert(keep.drop_last() =~= old_keep);
                i = i + 1;
                assert(values@ =~= original.subrange(i, original.len() as int));
            }
        }
        assert(original.subrange(0, original.len() as int) =~= original);
        self.values = kept;
        self.is_dirty = true;
        assert(self@.values == filter_by_mask(original, keep));
        assert(original == old(self)@.values);
        assert(keep.len() == old(self)@.values.len());
        assert(forall|j: int| 0 <= j < keep.len() ==> f.ensures((&old(self)@.values[j],), #[trigger] keep[j]));
        assert(final(self)@.values == filter_by_mask(old(self)@.values, keep));
    }

    pub fn clear(&mut self)
        ensures
            final(self)@ == (BatchedUniformBuffersView { values: Seq::empty(), is_dirty: true, ..old(self)@ }),
    {
        self.values = Vec::new();
        self.is_dirty = true;
    }

    /// Marks the buffers clean; no bytes are written.
    pub fn update(&mut self, device: &mut RenderDevice)
        ensures
            final(self)@ == (BatchedUniformBuffersView { is_dirty: false, ..old(self)@ }),
            final(device)@ == old(device)@,
    {
        if self.is_dirty {
            self.is_dirty = false;
        }
    }
}

} // verus!
