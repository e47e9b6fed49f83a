use crate::binding::BindingResource;
use crate::buffer::{clone_label, opt_view, recorded_one, spec_padded_size, Buffer, BufferView};
use crate::bytes::{round_up, spec_round_up, spec_write_at, write_at};
use crate::device::{DeviceCommand, Label, Limits, RenderDevice};
use crate::flags::BufferUsages;
use crate::storage::spec_is_pow2;
use vstd::prelude::*;

verus! {

/// What a uniform buffer is created with: the encoded value, a label and
/// extra usages.
pub struct UniformBufferDesc {
    pub value: Vec<u8>,
    pub label: Label,
    pub usage: Option<BufferUsages>,
}

/// The abstract state of a uniform buffer.
pub struct UniformBufferView {
    pub value: Seq<u8>,
    pub data: Seq<u8>,
    pub buffer: BufferView,
    pub is_dirty: bool,
}

/// A uniform buffer holding one encoded value.
///
/// `set` replaces the value but not its encoding: `update` writes the bytes
/// encoded at creation.
pub struct UniformBuffer {
    value: Vec<u8>,
    data: Vec<u8>,
    buffer: Buffer,
    is_dirty: bool,
}

impl View for UniformBuffer {
    type V = UniformBufferView;

    closed spec fn view(&self) -> UniformBufferView {
        UniformBufferView { value: self.value@, data: self.data@, buffer: self.buffer@, is_dirty: self.is_dirty }
    }
}

impl UniformBuffer {
    /// Encodes the value and creates the buffer holding it, with the given
    /// usages plus `UNIFORM`.
    pub fn new(device: &mut RenderDevice, desc: UniformBufferDesc) -> (r: UniformBuffer)
        requires
            old(device)@.next_id < u64::MAX,
            desc.value@.len() + 3 <= u64::MAX,
        ensures
            r@.value == desc.value@,
            r@.data == desc.value@,
            !r@.is_dirty,
            r@.buffer == (BufferView {
                id: old(device)@.next_id,
                label: desc.label,
                size: spec_padded_size(desc.value@.len() as int) as u64,
                usage: BufferUsages {
                    bits: match desc.usage {
                        Some(u) => u.bits | 64,
                        None => 64,
                    },
                },
            }),
            crate::buffer::allocated_one(old(device)@, final(device)@),
            crate::buffer::create_command_matches(final(device)@.commands.last(), r@.buffer, Some(desc.value@)),
    {
        let UniformBufferDesc { value, label, usage } = desc;
        let mut data: Vec<u8> = Vec::new();
        write_at(&mut data, 0, value.as_slice());
        assert(data@ =~= value@);
        let usage = match usage {
            Some(u) => u.union(BufferUsages::uniform()),
            None => BufferUsages::uniform(),
        };
        let buffer = Buffer::with_data(device, data.as_slice(), usage, label);
        UniformBuffer { value, data, buffer, is_dirty: false }
    }

    /// The encoded value.
    pub fn value(&self) -> (r: &[u8])
        ensures
            r@ == self@.value,
    {
        self.value.as_slice()
    }

    pub fn buffer(&self) -> (r: &Buffer)
        ensures
            r@ == self@.buffer,
    {
        &self.buffer
    }

    /// Binds all of the buffer.
    pub fn binding(&self) -> (r: BindingResource)
        ensures
            r == (BindingResource::Buffer { id: self@.buffer.id, offset: 0, size: None }),
    {
        self.buffer.as_entire_binding()
    }

    /// The bytes written to the buffer.
    pub fn data(&self) -> (r: &[u8])
        ensures
            r@ == self@.data,
    {
        self.data.as_slice()
    }

    pub fn is_dirty(&self) -> (r: bool)
        ensures
            r == self@.is_dirty,
    {
        self.is_dirty
    }

    /// Replaces the value and marks the buffer dirty.
    pub fn set(&mut self, value: Vec<u8>)
        ensures
            final(self)@ == (UniformBufferView { value: value@, is_dirty: true, ..old(self)@ }),
    {
        self.value = value;
        self.is_dirty = true;
    }

    /// When dirty, writes the bytes to the buffer and marks it clean.
    pub fn update(&mut self, device: &mut RenderDevice)
        ensures
            !old(self)@.is_dirty ==> final(self)@ == old(self)@ && final(device)@ == old(device)@,
            old(self)@.is_dirty ==> {
                &&& final(self)@ == (UniformBufferView { is_dirty: false, ..old(self)@ })
                &&& recorded_one(old(device)@, final(device)@)
                &&& final(device)@.commands.last() matches DeviceCommand::WriteBuffer { id, offset, data: d }
                    && id == old(self)@.buffer.id && offset == 0 && d@ == old(self)@.data
            },
    {
        if self.is_dirty {
            let bytes = crate::bytes::prefix(self.data.as_slice(), self.data.len());
            assert(bytes@ =~= self.data@);
            device.submit(DeviceCommand::WriteBuffer { id: self.buffer.id(), offset: 0, data: bytes });
            self.is_dirty = false;
        }
    }
}

/// The abstract state of a uniform buffer array.
pub struct UniformBufferArrayView {
    pub data: Seq<u8>,
    pub offset: u64,
    pub buffer: Option<BufferView>,
    pub label: Label,
    pub usage: BufferUsages,
    pub is_dirty: bool,
    pub alignment: u64,
}

/// Encoded values one after another, each at an offset aligned to
/// `alignment`, bound with dynamic offsets from a uniform buffer.
pub struct UniformBufferArray {
    data: Vec<u8>,
    offset: u64,
    buffer: Option<Buffer>,
    label: Label,
    usage: BufferUsages,
    is_dirty: bool,
    alignment: u64,
}

impl View for UniformBufferArray {
    type V = UniformBufferArrayView;

    closed spec fn view(&self) -> UniformBufferArrayView {
        UniformBufferArrayView {
            data: self.data@,
            offset: self.offset,
            buffer: opt_view(self.buffer),
            label: self.label,
            usage: self.usage,
            is_dirty: self.is_dirty,
            alignment: self.alignment,
        }
    }
}

/// The state after writing `values` one after another from `offset`: the
/// bytes, the next offset, and where each value went.
pub open spec fn written(data: Seq<u8>, offset: int, values: Seq<Seq<u8>>, alignment: int) -> (Seq<u8>, int, Seq<
    int,
>)
    decreases values.len(),
{
    if values.len() == 0 {
        (data, offset, Seq::empty())
    } else {
        let (d, o, offsets) = written(data, offset, values.drop_last(), alignment);
        (spec_write_at(d, o, values.last()), o + spec_round_up(values.last().len() as int, alignment), offsets.push(o))
    }
}

/// Writing more values never moves the next offset back.
pub proof fn lemma_written_grows(data: Seq<u8>, offset: int, values: Seq<Seq<u8>>, alignment: int, k: int)
    requires
        alignment > 0,
        offset >= 0,
        0 <= k <= values.len(),
    ensures
        written(data, offset, values.subrange(0, k), alignment).1 <= written(data, offset, values, alignment).1,
        written(data, offset, values, alignment).1 >= offset,
        written(data, offset, values, alignment).2.len() == values.len(),
    decreases values.len(),
{
    if values.len() > 0 {
        lemma_written_grows(data, offset, values.drop_last(), alignment, if k == values.len() {
            k - 1
        } else {
            k
        });
        crate::bytes::lemma_round_up(values.last().len() as int, alignment);
        if k == values.len() {
            assert(values.subrange(0, k) =~= values);
        } else {
            assert(values.drop_last().subrange(0, k) =~= values.subrange(0, k));
        }
    } else {
        assert(values.subrange(0, k) =~= values);
    }
}

/// The encoded views of a list of values.
pub open spec fn byte_views(values: Seq<Vec<u8>>) -> Seq<Seq<u8>> {
    values.map_values(|v: Vec<u8>| v@)
}

impl UniformBufferArray {
    /// An empty array whose alignment is the value size `element_size`,
    /// which must be a power of two of at least 32.
    pub fn new(element_size: u64) -> (r: UniformBufferArray)
        requires
            element_size >= 32,
            spec_is_pow2(element_size as nat),
        ensures
            r@ == new_array_view(element_size),
    {
        Self::new_with_alignment(element_size)
    }

    /// An empty array whose alignment is the device's uniform offset
    /// alignment rounded up to a multiple of the value size `element_size`
    /// (a power of two); the result must be a power of two of at least 32.
    pub fn aligned(limits: &Limits, element_size: u64) -> (r: UniformBufferArray)
        requires
            spec_is_pow2(element_size as nat),
            element_size + limits.min_uniform_buffer_offset_alignment <= u64::MAX,
            spec_is_pow2(aligned_size(limits.min_uniform_buffer_offset_alignment, element_size) as nat),
            aligned_size(limits.min_uniform_buffer_offset_alignment, element_size) >= 32,
        ensures
            r@ == new_array_view(aligned_size(limits.min_uniform_buffer_offset_alignment, element_size)),
    {
        let limit = limits.min_uniform_buffer_offset_alignment as u64;
        proof {
            lemma_pow2_positive(element_size as nat);
            crate::bytes::lemma_round_up(limit as int, element_size as int);
        }
        let alignment = limit + pad(limit, element_size);
        Self::new_with_alignment(alignment)
    }

    /// An empty array aligned to `alignment`, a power of two of at least 32.
    pub fn new_with_alignment(alignment: u64) -> (r: UniformBufferArray)
        requires
            alignment >= 32,
            spec_is_pow2(alignment as nat),
        ensures
            r@ == new_array_view(alignment),
    {
        UniformBufferArray {
            data: Vec::new(),
            offset: 0,
            buffer: None,
            label: None,
            usage: BufferUsages { bits: 72 },
            is_dirty: true,
            alignment,
        }
    }

    pub fn with_label(self, label: String) -> (r: UniformBufferArray)
        ensures
            r@ == (UniformBufferArrayView { label: Some(label), ..self@ }),
    {
        let mut s = self;
        s.label = Some(label);
        s
    }

    /// Replaces the usages with `usage` plus `UNIFORM`.
    pub fn with_usage(self, usage: BufferUsages) -> (r: UniformBufferArray)
        ensures
            r@ == (UniformBufferArrayView { usage: BufferUsages { bits: usage.bits | 64 }, ..self@ }),
    {
        let mut s = self;
        s.usage = usage.union(BufferUsages::uniform());
        s
    }

    pub fn label(&self) -> (r: &Label)
        ensures
            *r == self@.label,
    {
        &self.label
    }

    pub fn usage(&self) -> (r: BufferUsages)
        ensures
            r == self@.usage,
    {
        self.usage
    }

    pub fn buffer(&self) -> (r: Option<&Buffer>)
        ensures
            match r {
                Some(b) => self@.buffer == Some(b@),
                None => self@.buffer is None,
            },
    {
        match &self.buffer {
            Some(b) => Some(b),
            None => None,
        }
    }

    pub fn binding(&self) -> (r: Option<BindingResource>)
        ensures
            match self@.buffer {
                Some(b) => r == Some(BindingResource::Buffer { id: b.id, offset: 0, size: None }),
                None => r is None,
            },
    {
        match &self.buffer {
            Some(b) => Some(b.as_entire_binding()),
            None => None,
        }
    }

    pub fn data(&self) -> (r: &[u8])
        ensures
            r@ == self@.data,
    {
        self.data.as_slice()
    }

    pub fn is_dirty(&self) -> (r: bool)
        ensures
            r == self@.is_dirty,
    {
        self.is_dirty
    }

    pub fn alignment(&self) -> (r: u64)
        ensures
            r == self@.alignment,
    {
        self.alignment
    }

    /// The number of aligned slots the bytes fill.
    pub fn len(&self) -> (r: usize)
        requires
            self@.alignment > 0,
        ensures
            r == self@.data.len() as int / (self@.alignment as int),
    {
        let n = self.data.len() as u64;
        (n / self.alignment) as usize
    }

    /// Writes the encoded value at the current offset and returns that
    /// offset; the next value goes at the following aligned offset.
    pub fn push(&mut self, value: &[u8]) -> (r: u64)
        requires
            old(self)@.alignment > 0,
            old(self)@.offset + spec_round_up(value@.len() as int, old(self)@.alignment as int) <= usize::MAX,
            value@.len() + old(self)@.alignment <= u64::MAX,
        ensures
            r == old(self)@.offset,
            final(self)@ == (UniformBufferArrayView {
                data: spec_write_at(old(self)@.data, old(self)@.offset as int, value@),
                offset: (old(self)@.offset + spec_round_up(value@.len() as int, old(self)@.alignment as int)) as u64,
                is_dirty: true,
                ..old(self)@
            }),
    {
        proof {
            crate::bytes::lemma_round_up(value@.len() as int, self.alignment as int);
        }
        let at = self.offset;
        let mut data = Vec::new();
        std::mem::swap(&mut data, &mut self.data);
        write_at(&mut data, at as usize, value);
        self.data = data;
        let step = round_up(value.len() as u64, self.alignment);
        self.offset = at + step;
        self.is_dirty = true;
        at
    }

    /// Writes the encoded values one after another from slot `index` and
    /// returns their offsets; the next value then goes at the end of the
    /// bytes, which must be aligned.
    pub fn set(&mut self, index: usize, values: &[Vec<u8>]) -> (r: Vec<u64>)
        requires
            old(self)@.alignment > 0,
            written(
                old(self)@.data,
                index * old(self)@.alignment,
                byte_views(values@),
                old(self)@.alignment as int,
            ).1 <= usize::MAX,
            forall|i: int| 0 <= i < values@.len() ==> #[trigger] values@[i]@.len() + old(self)@.alignment <= u64::MAX,
            written(
                old(self)@.data,
                index * old(self)@.alignment,
                byte_views(values@),
                old(self)@.alignment as int,
            ).0.len() as int % (old(self)@.alignment as int) == 0,
        ensures
            ({
                let w = written(
                    old(self)@.data,
                    index * old(self)@.alignment,
                    byte_views(values@),
                    old(self)@.alignment as int,
                );
                &&& r@.len() == w.2.len()
                &&& forall|i: int| 0 <= i < r@.len() ==> r@[i] == w.2[i]
                &&& final(self)@ == (UniformBufferArrayView {
                    data: w.0,
                    offset: w.0.len() as u64,
                    is_dirty: true,
                    ..old(self)@
                })
            }),
    {
        let ghost a = self.alignment as int;
        let ghost d0 = self.data@;
        let ghost o0 = index * self.alignment;
        let ghost vs = byte_views(values@);
        proof {
            lemma_written_grows(d0, o0, vs, a, 0);
            assert(vs.subrange(0, 0) =~= Seq::<Seq<u8>>::empty());
        }
        let mut offset: u64 = (index as u64) * self.alignment;
        let mut data = Vec::new();
        std::mem::swap(&mut data, &mut self.data);
        let mut offsets: Vec<u64> = Vec::new();
        let mut i: usize = 0;
        while i < values.len()
            invariant
                a == self.alignment,
                a > 0,
                o0 >= 0,
                0 <= i <= values@.len(),
                vs == byte_views(values@),
                written(d0, o0, vs, a).1 <= usize::MAX,
                forall|j: int| 0 <= j < values@.len() ==> #[trigger] values@[j]@.len() + a <= u64::MAX,
                written(d0, o0, vs.subrange(0, i as int), a) == (data@, offset as int, offsets@.map_values(
                    |o: u64| o as int,
                )),
            decreases values.len() - i,
        {
            proof {
                lemma_written_grows(d0, o0, vs, a, i + 1);
                assert(vs.subrange(0, i + 1).drop_last() =~= vs.subrange(0, i as int));
                assert(vs.subrange(0, i + 1).last() == values@[i as int]@);
                crate::bytes::lemma_round_up(values@[i as int]@.len() as int, a);
            }
            let value = &values[i];
            write_at(&mut data, offset as usize, value.as_slice());
            offsets.push(offset);
            let step = round_up(value.len() as u64, self.alignment);
            offset = offset + step;
            proof {
                assert(offsets@.map_values(|o: u64| o as int) =~= written(d0, o0, vs.subrange(0, i as int), a).2.push(
                    offsets@.last() as int,
                ));
            }
            i = i + 1;
        }
        proof {
            assert(vs.subrange(0, values@.len() as int) =~= vs);
        }
        self.data = data;
        self.offset = self.data.len() as u64;
        self.is_dirty = true;
        offsets
    }

    /// Brings the GPU buffer up to date: when there is one and the array is
    /// dirty, all bytes are written to it; when there is none and there are
    /// bytes, it is created holding them. Otherwise nothing happens.
    pub fn update(&mut self, device: &mut RenderDevice)
        requires
            old(device)@.next_id < u64::MAX,
            old(self)@.data.len() + 3 <= u64::MAX,
        ensures
            match old(self)@.buffer {
                Some(b) => if old(self)@.is_dirty {
                    &&& final(self)@ == (UniformBufferArrayView { is_dirty: false, ..old(self)@ })
                    &&& recorded_one(old(device)@, final(device)@)
                    &&& final(device)@.commands.last() matches DeviceCommand::WriteBuffer { id, offset, data: d }
                        && id == b.id && offset == 0 && d@ == old(self)@.data
                } else {
                    final(self)@ == old(self)@ && final(device)@ == old(device)@
                },
                None => if old(self)@.data.len() > 0 {
                    &&& final(self)@ == (UniformBufferArrayView {
                        buffer: Some(
                            BufferView {
                                id: old(device)@.next_id,
                                label: old(self)@.label,
                                size: spec_padded_size(old(self)@.data.len() as int) as u64,
                                usage: old(self)@.usage,
                            },
                        ),
                        is_dirty: false,
                        ..old(self)@
                    })
                    &&& crate::buffer::allocated_one(old(device)@, final(device)@)
                    &&& crate::buffer::create_command_matches(
                        final(device)@.commands.last(),
                        final(self)@.buffer.unwrap(),
                        Some(old(self)@.data),
                    )
                } else {
                    final(self)@ == old(self)@ && final(device)@ == old(device)@
                },
            },
    {
        match &self.buffer {
            Some(b) => {
                if self.is_dirty {
                    let bytes = crate::bytes::prefix(self.data.as_slice(), self.data.len());
                    assert(bytes@ =~= self.data@);
                    device.submit(DeviceCommand::WriteBuffer { id: b.id(), offset: 0, data: bytes });
                    self.is_dirty = false;
                }
            },
            None => {
                if self.data.len() > 0 {
                    let b = Buffer::with_data(device, self.data.as_slice(), self.usage, clone_label(&self.label));
                    self.buffer = Some(b);
                    self.is_dirty = false;
                }
            },
        }
    }
}

/// A new, empty array with the given alignment.
pub open spec fn new_array_view(alignment: u64) -> UniformBufferArrayView {
    UniformBufferArrayView {
        data: Seq::empty(),
        offset: 0,
        buffer: None,
        label: None,
        usage: BufferUsages { bits: 72 },
        is_dirty: true,
        alignment,
    }
}

/// `limit` rounded up to a multiple of `size`.
pub open spec fn aligned_size(limit: u32, size: u64) -> u64 {
    spec_round_up(limit as int, size as int) as u64
}

/// A power of two is positive.
pub proof fn lemma_pow2_positive(n: nat)
    requires
        spec_is_pow2(n),
    ensures
        n > 0,
    decreases n,
{
    if n != 1 {
        lemma_pow2_positive(n / 2);
    }
}

/// Two multiples of `a` that lie less than `a` apart are equal.
proof fn lemma_unique_multiple(x: int, y: int, a: int, qx: int, qy: int)
    requires
        a > 0,
        x == a * qx,
        y == a * qy,
        x - y < a,
        y - x < a,
    ensures
        x == y,
{
    if qx > qy {
        assert(a * qx - a * qy >= a) by (nonlinear_arith)
            requires
                qx > qy,
                a > 0,
        ;
    } else if qx < qy {
        assert(a * qy - a * qx >= a) by (nonlinear_arith)
            requires
                qx < qy,
                a > 0,
        ;
    }
}

/// The padding that takes `n` to a multiple of `a`.
fn pad(n: u64, a: u64) -> (r: u64)
    requires
        a > 0,
        n + a <= u64::MAX,
    ensures
        n + r == spec_round_up(n as int, a as int),
{
    let rem = n % a;
    let p = if rem > 0 {
        a - rem
    } else {
        0
    };
    proof {
        let r = spec_round_up(n as int, a as int);
        crate::bytes::lemma_round_up(n as int, a as int);
        vstd::arithmetic::div_mod::lemma_fundamental_div_mod(n as int, a as int);
        vstd::arithmetic::div_mod::lemma_fundamental_div_mod(r, a as int);
        let q = n as int / a as int;
        let qn = if rem > 0 {
            q + 1
        } else {
            q
        };
        assert(n + p == a * qn) by (nonlinear_arith)
            requires
                n == a * q + rem,
                rem > 0 ==> p == a - rem && qn == q + 1,
                rem == 0 ==> p == 0 && qn == q,
        ;
        lemma_unique_multiple(n + p, r, a as int, qn, r / (a as int));
    }
    p
}

} // verus!
