use vstd::prelude::*;

verus! {
/// Usage flags of a GPU buffer, as a bit set.
#[derive(Clone, Copy, PartialEq, Eq, Structural, Debug)]
pub struct BufferUsages {
    pub bits: u32,
}

impl BufferUsages {
    /// The set with no flag.
    pub fn empty() -> (r: BufferUsages)
        ensures
            r.bits == 0,
    {
        BufferUsages { bits: 0 }
    }

    /// The set with exactly the given bits.
    pub fn from_bits(bits: u32) -> (r: BufferUsages)
        ensures
            r.bits == bits,
    {
        BufferUsages { bits }
    }

    pub fn map_read() -> (r: BufferUsages)
        ensures
            r.bits == 1,
    {
        BufferUsages { bits: 1 }
    }

    pub fn map_write() -> (r: BufferUsages)
        ensures
            r.bits == 2,
    {
        BufferUsages { bits: 2 }
    }

    pub fn copy_src() -> (r: BufferUsages)
        ensures
            r.bits == 4,
    {
        BufferUsages { bits: 4 }
    }

    pub fn copy_dst() -> (r: BufferUsages)
        ensures
            r.bits == 8,
    {
        BufferUsages { bits: 8 }
    }

    pub fn index() -> (r: BufferUsages)
        ensures
            r.bits == 16,
    {
        BufferUsages { bits: 16 }
    }

    pub fn vertex() -> (r: BufferUsages)
        ensures
            r.bits == 32,
    {
        BufferUsages { bits: 32 }
    }

    pub fn uniform() -> (r: BufferUsages)
        ensures
            r.bits == 64,
    {
        BufferUsages { bits: 64 }
    }

    pub fn storage() -> (r: BufferUsages)
        ensures
            r.bits == 128,
    {
        BufferUsages { bits: 128 }
    }

    pub fn indirect() -> (r: BufferUsages)
        ensures
            r.bits == 256,
    {
        BufferUsages { bits: 256 }
    }

    pub fn query_resolve() -> (r: BufferUsages)
        ensures
            r.bits == 512,
    {
        BufferUsages { bits: 512 }
    }

    /// The raw bits.
    pub fn bits(&self) -> (r: u32)
        ensures
            r == self.bits,
    {
        self.bits
    }

    /// The union of two flag sets.
    pub fn union(self, other: BufferUsages) -> (r: BufferUsages)
        ensures
            r.bits == self.bits | other.bits,
    {
        BufferUsages { bits: self.bits | other.bits }
    }

    /// The flags of `self` that are not in `other`.
    pub fn difference(self, other: BufferUsages) -> (r: BufferUsages)
        ensures
            r.bits == self.bits & !other.bits,
    {
        BufferUsages { bits: self.bits & !other.bits }
    }

    /// Whether every flag of `other` is set in `self`.
    pub fn contains(self, other: BufferUsages) -> (r: bool)
        ensures
            r == (self.bits & other.bits == other.bits),
    {
        self.bits & other.bits == other.bits
    }

    /// Whether no flag is set.
    pub fn is_empty(self) -> (r: bool)
        ensures
            r == (self.bits == 0),
    {
        self.bits == 0
    }
}

/// Usage flags of a GPU texture, as a bit set.
#[derive(Clone, Copy, PartialEq, Eq, Structural, Debug)]
pub struct TextureUsages {
    pub bits: u32,
}

impl TextureUsages {
    /// The set with no flag.
    pub fn empty() -> (r: TextureUsages)
        ensures
            r.bits == 0,
    {
        TextureUsages { bits: 0 }
    }

    /// The set with exactly the given bits.
    pub fn from_bits(bits: u32) -> (r: TextureUsages)
        ensures
            r.bits == bits,
    {
        TextureUsages { bits }
    }

    pub fn copy_src() -> (r: TextureUsages)
        ensures
            r.bits == 1,
    {
        TextureUsages { bits: 1 }
    }

    pub fn copy_dst() -> (r: TextureUsages)
        ensures
            r.bits == 2,
    {
        TextureUsages { bits: 2 }
    }

    pub fn texture_binding() -> (r: TextureUsages)
        ensures
            r.bits == 4,
    {
        TextureUsages { bits: 4 }
    }

    pub fn storage_binding() -> (r: TextureUsages)
        ensures
            r.bits == 8,
    {
        TextureUsages { bits: 8 }
    }

    pub fn render_attachment() -> (r: TextureUsages)
        ensures
            r.bits == 16,
    {
        TextureUsages { bits: 16 }
    }

    /// The raw bits.
    pub fn bits(&self) -> (r: u32)
        ensures
            r == self.bits,
    {
        self.bits
    }

    /// The union of two flag sets.
    pub fn union(self, other: TextureUsages) -> (r: TextureUsages)
        ensures
            r.bits == self.bits | other.bits,
    {
        TextureUsages { bits: self.bits | other.bits }
    }

    /// The flags of `self` that are not in `other`.
    pub fn difference(self, other: TextureUsages) -> (r: TextureUsages)
        ensures
            r.bits == self.bits & !other.bits,
    {
        TextureUsages { bits: self.bits & !other.bits }
    }

    /// Whether every flag of `other` is set in `self`.
    pub fn contains(self, other: TextureUsages) -> (r: bool)
        ensures
            r == (self.bits & other.bits == other.bits),
    {
        self.bits & other.bits == other.bits
    }

    /// Whether no flag is set.
    pub fn is_empty(self) -> (r: bool)
        ensures
            r == (self.bits == 0),
    {
        self.bits == 0
    }
}

/// The shader stages a binding is visible to, as a bit set.
#[derive(Clone, Copy, PartialEq, Eq, Structural, Debug)]
pub struct ShaderStages {
    pub bits: u32,
}

impl ShaderStages {
    /// The set with no flag.
    pub fn empty() -> (r: ShaderStages)
        ensures
            r.bits == 0,
    {
        ShaderStages { bits: 0 }
    }

    /// The set with exactly the given bits.
    pub fn from_bits(bits: u32) -> (r: ShaderStages)
        ensures
            r.bits == bits,
    {
        ShaderStages { bits }
    }

    pub fn vertex() -> (r: ShaderStages)
        ensures
            r.bits == 1,
    {
        ShaderStages { bits: 1 }
    }

    pub fn fragment() -> (r: ShaderStages)
        ensures
            r.bits == 2,
    {
        ShaderStages { bits: 2 }
    }

    pub fn compute() -> (r: ShaderStages)
        ensures
            r.bits == 4,
    {
        ShaderStages { bits: 4 }
    }

    pub fn vertex_fragment() -> (r: ShaderStages)
        ensures
            r.bits == 3,
    {
        ShaderStages { bits: 3 }
    }

    /// The raw bits.
    pub fn bits(&self) -> (r: u32)
        ensures
            r == self.bits,
    {
        self.bits
    }

    /// The union of two flag sets.
    pub fn union(self, other: ShaderStages) -> (r: ShaderStages)
        ensures
            r.bits == self.bits | other.bits,
    {
        ShaderStages { bits: self.bits | other.bits }
    }

    /// The flags of `self` that are not in `other`.
    pub fn difference(self, other: ShaderStages) -> (r: ShaderStages)
        ensures
            r.bits == self.bits & !other.bits,
    {
        ShaderStages { bits: self.bits & !other.bits }
    }

    /// Whether every flag of `other` is set in `self`.
    pub fn contains(self, other: ShaderStages) -> (r: bool)
        ensures
            r == (self.bits & other.bits == other.bits),
    {
        self.bits & other.bits == other.bits
    }

    /// Whether no flag is set.
    pub fn is_empty(self) -> (r: bool)
        ensures
            r == (self.bits == 0),
    {
        self.bits == 0
    }
}

/// A union holds both of its operands.
pub proof fn lemma_union_contains(a: u32, b: u32)
    ensures
        (a | b) & a == a,
        (a | b) & b == b,
{
    assert((a | b) & a == a) by (bit_vector);
    assert((a | b) & b == b) by (bit_vector);
}

} // verus!
