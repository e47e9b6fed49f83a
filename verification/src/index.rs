use crate::buffer::{Buffer, BufferSlice, BufferSliceId, BufferView, SliceBound, spec_end, spec_start};
use crate::device::{DeviceCommand, Label, RenderDevice};
use crate::flags::BufferUsages;
use std::marker::PhantomData;
use vstd::prelude::*;

verus! {

/// The width of the indices of an index buffer.
#[derive(Clone, Copy, PartialEq, Eq, Structural, Debug, Hash)]
pub enum IndexFormat {
    Uint16,
    Uint32,
}

/// Calls `bytemuck::cast_slice` to view 32-bit indices as bytes and copies
/// them; believed: four bytes per index. Their order is the machine's, so
/// nothing is said of the bytes themselves.
#[verifier::external_body]
fn u32_bytes(values: &[u32]) -> (r: Vec<u8>)
    ensures
        r@.len() == 4 * values@.len(),
{
    bytemuck::cast_slice::<u32, u8>(values).to_vec()
}

/// Calls `bytemuck::cast_slice` to view 16-bit indices as bytes and copies
/// them; believed: two bytes per index. Their order is the machine's, so
/// nothing is said of the bytes themselves.
#[verifier::external_body]
fn u16_bytes(values: &[u16]) -> (r: Vec<u8>)
    ensures
        r@.len() == 2 * values@.len(),
{
    bytemuck::cast_slice::<u16, u8>(values).to_vec()
}

/// An index type: its format and width.
pub trait Index: Copy + Sized {
    spec fn spec_format() -> IndexFormat;

    spec fn spec_size() -> nat;

    fn format() -> (r: IndexFormat)
        ensures
            r == Self::spec_format(),
    ;

    /// The indices as the bytes the GPU reads.
    fn to_bytes(values: &[Self]) -> (r: Vec<u8>)
        ensures
            r@.len() == values@.len() * Self::spec_size(),
    ;
}

impl Index for u32 {
    open spec fn spec_format() -> IndexFormat {
        IndexFormat::Uint32
    }

    open spec fn spec_size() -> nat {
        4
    }

    fn format() -> (r: IndexFormat) {
        IndexFormat::Uint32
    }

    fn to_bytes(values: &[u32]) -> (r: Vec<u8>) {
        u32_bytes(values)
    }
}

impl Index for u16 {
    open spec fn spec_format() -> IndexFormat {
        IndexFormat::Uint16
    }

    open spec fn spec_size() -> nat {
        2
    }

    fn format() -> (r: IndexFormat) {
        IndexFormat::Uint16
    }

    fn to_bytes(values: &[u16]) -> (r: Vec<u8>) {
        u16_bytes(values)
    }
}

/// A list of indices.
#[derive(Clone)]
pub struct Indices<I: Index> {
    indices: Vec<I>,
}

impl<I: Index> View for Indices<I> {
    type V = Seq<I>;

    closed spec fn view(&self) -> Seq<I> {
        self.indices@
    }
}

impl<I: Index> Indices<I> {
    pub fn new(indices: Vec<I>) -> (r: Indices<I>)
        ensures
            r@ == indices@,
    {
        Indices { indices }
    }

    /// Appends the indices of `other`.
    pub fn extend(&mut self, other: Indices<I>)
        ensures
            final(self)@ == old(self)@ + other@,
    {
        let mut other = other;
        self.indices.append(&mut other.indices);
    }

    /// The bytes the indices take.
    pub fn size(&self) -> (r: u64)
        requires
            self@.len() * I::spec_size() <= u64::MAX,
        ensures
            r == self@.len() * I::spec_size(),
    {
        let bytes = I::to_bytes(self.indices.as_slice());
        bytes.len() as u64
    }

    pub fn format(&self) -> (r: IndexFormat)
        ensures
            r == I::spec_format(),
    {
        I::format()
    }

    pub fn len(&self) -> (r: usize)
        ensures
            r == self@.len(),
    {
        self.indices.len()
    }

    pub fn as_slice(&self) -> (r: &[I])
        ensures
            r@ == self@,
    {
        self.indices.as_slice()
    }
}

/// A range of an index buffer, with the width of its indices.
pub struct IndexSlice {
    format: IndexFormat,
    slice: BufferSlice,
}

impl IndexSlice {
    pub closed spec fn spec_format(&self) -> IndexFormat {
        self.format
    }

    pub closed spec fn spec_slice(&self) -> BufferSliceId {
        self.slice@
    }

    pub fn buffer_id(&self) -> (r: u64)
        ensures
            r == self.spec_slice().id,
    {
        self.slice.buffer_id()
    }

    pub fn id(&self) -> (r: BufferSliceId)
        ensures
            r == self.spec_slice(),
    {
        self.slice.id()
    }

    pub fn format(&self) -> (r: IndexFormat)
        ensures
            r == self.spec_format(),
    {
        self.format
    }

    pub fn slice(&self) -> (r: &BufferSlice)
        ensures
            r@ == self.spec_slice(),
    {
        &self.slice
    }
}

/// A GPU buffer of indices of type `I`, and how many it was created with.
pub struct IndexBuffer<I: Index> {
    inner: Buffer,
    len: u64,
    marker: PhantomData<I>,
}

impl<I: Index> IndexBuffer<I> {
    pub closed spec fn spec_buffer(&self) -> BufferView {
        self.inner@
    }

    pub closed spec fn spec_len(&self) -> u64 {
        self.len
    }

    /// Creates a buffer holding the indices.
    pub fn new(device: &mut RenderDevice, indices: &Indices<I>, usage: BufferUsages, label: Label) -> (r:
        IndexBuffer<I>)
        requires
            old(device)@.next_id < u64::MAX,
            indices@.len() * I::spec_size() + 3 <= u64::MAX,
        ensures
            r.spec_len() == indices@.len(),
            r.spec_buffer().id == old(device)@.next_id,
            r.spec_buffer().usage == usage,
            r.spec_buffer().label == label,
            r.spec_buffer().size == crate::buffer::spec_padded_size((indices@.len() * I::spec_size()) as int),
            crate::buffer::allocated_one(old(device)@, final(device)@),
            final(device)@.commands.last() matches DeviceCommand::CreateBuffer { id, contents: Some(bytes), .. }
                && id == r.spec_buffer().id && bytes@.len() == indices@.len() * I::spec_size(),
    {
        let data = I::to_bytes(indices.as_slice());
        let inner = Buffer::with_data(device, data.as_slice(), usage, label);
        IndexBuffer { inner, len: indices.len() as u64, marker: PhantomData }
    }

    pub fn inner(&self) -> (r: &Buffer)
        ensures
            r@ == self.spec_buffer(),
    {
        &self.inner
    }

    /// The indices between two byte bounds, tagged with their width.
    pub fn slice(&self, start: SliceBound, end: SliceBound) -> (r: IndexSlice)
        requires
            start matches SliceBound::Excluded(s) ==> s < u64::MAX,
            end matches SliceBound::Included(e) ==> e < u64::MAX,
        ensures
            r.spec_format() == I::spec_format(),
            r.spec_slice() == (BufferSliceId {
                id: self.spec_buffer().id,
                start: spec_start(start),
                end: spec_end(end, self.spec_buffer().size),
            }),
    {
        IndexSlice { format: I::format(), slice: self.inner.slice(start, end) }
    }

    /// The number of indices the buffer was created with.
    pub fn len(&self) -> (r: u64)
        ensures
            r == self.spec_len(),
    {
        self.len
    }

    /// Recreates the buffer with `size` bytes unless it has that size.
    pub fn resize(&mut self, device: &mut RenderDevice, size: u64)
        ensures
            final(self).spec_len() == old(self).spec_len(),
            final(self).spec_buffer() == (BufferView { size, ..old(self).spec_buffer() }),
            size == old(self).spec_buffer().size ==> final(device)@ == old(device)@,
            size != old(self).spec_buffer().size ==> crate::buffer::recorded_one(old(device)@, final(device)@)
                && crate::buffer::create_command_matches(
                final(device)@.commands.last(),
                final(self).spec_buffer(),
                None,
            ),
    {
        self.inner.resize(device, size);
    }

    /// Writes the indices at byte `offset` (cut to the buffer's size).
    pub fn update(&mut self, device: &mut RenderDevice, offset: u64, indices: &Indices<I>)
        requires
            offset + indices@.len() * I::spec_size() <= u64::MAX,
            vstd::math::min(offset + indices@.len() * I::spec_size(), old(self).spec_buffer().size as int)
                <= indices@.len() * I::spec_size(),
        ensures
            final(self).spec_buffer() == old(self).spec_buffer(),
            final(self).spec_len() == old(self).spec_len(),
            crate::buffer::recorded_one(old(device)@, final(device)@),
            final(device)@.commands.last() matches DeviceCommand::WriteBuffer { id, offset: o, data: d } && id
                == old(self).spec_buffer().id && o == offset && d@.len() == vstd::math::min(
                offset + indices@.len() * I::spec_size(),
                old(self).spec_buffer().size as int,
            ),
    {
        let data = I::to_bytes(indices.as_slice());
        self.inner.update(device, offset, data.as_slice());
    }
}

} // verus!
