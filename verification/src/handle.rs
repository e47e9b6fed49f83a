use std::marker::PhantomData;
use vstd::prelude::*;

verus! {

/// What a CRC-32 hasher finishes with after hashing a string the way
/// `std::hash::Hash` hashes one: the checksum of its UTF-8 bytes followed by
/// the byte 0xff, widened to 64 bits.
pub open spec fn hashed_name_crc32(name: Seq<char>) -> u64 {
    crate::bytes::crc32(crate::bytes::utf8_bytes(name).push(0xffu8)) as u64
}

/// Hashes `name` into a fresh `crc32fast::Hasher` through `std::hash::Hash`
/// (which writes the UTF-8 bytes, then 0xff) and finishes it (`finish`
/// widens the 32-bit checksum). The result is believed to be
/// `hashed_name_crc32` of the name.
#[verifier::external_body]
fn crc32_hash_of(name: &str) -> (r: u64)
    ensures
        r == hashed_name_crc32(name@),
        r <= u32::MAX,
{
    let mut hasher = crc32fast::Hasher::new();
    std::hash::Hash::hash(name, &mut hasher);
    std::hash::Hasher::finish(&hasher)
}

/// Calls `uuid::Uuid::new_v4()` and returns it as a big-endian integer. The
/// bits are random but for the version nibble (4) and the RFC 4122 variant
/// bits (0b10), which the uuid source sets on every result.
#[verifier::external_body]
fn random_v4_uuid() -> (r: u128)
    ensures
        (r >> 76u128) & 15 == 4,
        (r >> 62u128) & 3 == 2,
{
    uuid::Uuid::new_v4().as_u128()
}

/// The id of a render asset of kind `T`.
pub struct Id<T> {
    id: u128,
    marker: PhantomData<T>,
}

impl<T> Id<T> {
    pub closed spec fn spec_id(&self) -> u128 {
        self.id
    }

    /// The id `value`.
    pub fn new(value: u128) -> (r: Id<T>)
        ensures
            r.spec_id() == value,
    {
        Id { id: value, marker: PhantomData }
    }

    /// A fresh random (version 4) id.
    pub fn generate() -> (r: Id<T>)
        ensures
            (r.spec_id() >> 76u128) & 15 == 4,
            (r.spec_id() >> 62u128) & 3 == 2,
    {
        Id::new(random_v4_uuid())
    }

    /// The same id, for another kind of asset.
    pub fn to<S>(&self) -> (r: Id<S>)
        ensures
            r.spec_id() == self.spec_id(),
    {
        Id::new(self.id)
    }

    /// The id a name stands for: the CRC-32 hash of the name.
    pub fn from_name(name: &str) -> (r: Id<T>)
        ensures
            r.spec_id() == hashed_name_crc32(name@) as u128,
    {
        Id::new(crc32_hash_of(name) as u128)
    }

    pub fn id(&self) -> (r: u128)
        ensures
            r == self.spec_id(),
    {
        self.id
    }

    /// A copy of the id.
    pub fn copy(&self) -> (r: Id<T>)
        ensures
            r.spec_id() == self.spec_id(),
    {
        Id::new(self.id)
    }

    /// Whether two ids are the same.
    pub fn same(&self, other: &Id<T>) -> (r: bool)
        ensures
            r == (self.spec_id() == other.spec_id()),
    {
        self.id == other.id
    }
}

/// A render asset given either by its id or by value.
pub enum Handle<T> {
    Ref(Id<T>),
    Owned(T),
}

impl<T> Handle<T> {
    /// The id, for a handle by id.
    pub fn id(&self) -> (r: Option<&Id<T>>)
        ensures
            match self {
                Handle::Ref(id) => r == Some(id),
                Handle::Owned(_) => r.is_none(),
            },
    {
        match self {
            Handle::Ref(id) => Some(id),
            Handle::Owned(_) => None,
        }
    }

    /// The value, for a handle by value.
    pub fn owned(&self) -> (r: Option<&T>)
        ensures
            match self {
                Handle::Owned(v) => r == Some(v),
                Handle::Ref(_) => r.is_none(),
            },
    {
        match self {
            Handle::Owned(v) => Some(v),
            Handle::Ref(_) => None,
        }
    }
}

} // verus!
