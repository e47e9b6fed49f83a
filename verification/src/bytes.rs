use vstd::prelude::*;

verus! {

/// `data` with `bytes` written at `offset`: the vector grows (zero-filled)
/// to hold them, and every other byte keeps its value.
pub open spec fn spec_write_at(data: Seq<u8>, offset: int, bytes: Seq<u8>) -> Seq<u8> {
    Seq::new(
        vstd::math::max(data.len() as int, offset + bytes.len()) as nat,
        |i: int|
            if offset <= i < offset + bytes.len() {
                bytes[i - offset]
            } else if i < data.len() {
                data[i]
            } else {
                0u8
            },
    )
}

/// Writes `bytes` into `data` at `offset`, growing it with zeros as needed.
pub fn write_at(data: &mut Vec<u8>, offset: usize, bytes: &[u8])
    requires
        offset == 0 || offset + bytes@.len() <= usize::MAX,
    ensures
        final(data)@ == spec_write_at(old(data)@, offset as int, bytes@),
{
    let n = bytes.len();
    let end = offset + n;
    let ghost original = old(data)@;
    while data.len() < end
        invariant
            end == offset + bytes@.len(),
            original.len() <= data@.len() <= vstd::math::max(original.len() as int, end as int),
            forall|i: int| 0 <= i < original.len() ==> data@[i] == original[i],
            forall|i: int| original.len() <= i < data@.len() ==> data@[i] == 0u8,
        decreases end - data@.len(),
    {
        data.push(0u8);
    }
    let mut j: usize = 0;
    while j < bytes.len()
        invariant
            end == offset + bytes@.len(),
            j <= bytes@.len(),
            data@.len() == vstd::math::max(original.len() as int, end as int),
            forall|i: int|
                0 <= i < data@.len() ==> data@[i] == (if offset <= i < offset + j {
                    bytes[i - offset]
                } else if i < original.len() {
                    original[i]
                } else {
                    0u8
                }),
        decreases bytes@.len() - j,
    {
        data.set(offset + j, bytes[j]);
        j = j + 1;
    }
    assert(data@ =~= spec_write_at(original, offset as int, bytes@));
}

/// The first `n` bytes of `data`, copied.
pub fn prefix(data: &[u8], n: usize) -> (r: Vec<u8>)
    requires
        n <= data@.len(),
    ensures
        r@ == data@.subrange(0, n as int),
{
    let mut out: Vec<u8> = Vec::new();
    let mut i: usize = 0;
    while i < n
        invariant
            i <= n,
            n <= data@.len(),
            out@ == data@.subrange(0, i as int),
        decreases n - i,
    {
        out.push(data[i]);
        i = i + 1;
        assert(out@ =~= data@.subrange(0, i as int));
    }
    out
}

/// The bytes of `data` in `start..end`, copied.
pub fn copy_range(data: &[u8], start: usize, end: usize) -> (r: Vec<u8>)
    requires
        start <= end <= data@.len(),
    ensures
        r@ == data@.subrange(start as int, end as int),
{
    let mut out: Vec<u8> = Vec::new();
    let mut i: usize = start;
    while i < end
        invariant
            start <= i <= end,
            end <= data@.len(),
            out@ == data@.subrange(start as int, i as int),
        decreases end - i,
    {
        out.push(data[i]);
        i = i + 1;
        assert(out@ =~= data@.subrange(start as int, i as int));
    }
    out
}

/// `count` zero bytes.
pub fn zeros(count: usize) -> (r: Vec<u8>)
    ensures
        r@ == Seq::new(count as nat, |i: int| 0u8),
{
    let mut out: Vec<u8> = Vec::new();
    let mut i: usize = 0;
    while i < count
        invariant
            i <= count,
            out@ == Seq::new(i as nat, |k: int| 0u8),
        decreases count - i,
    {
        out.push(0u8);
        i = i + 1;
        assert(out@ =~= Seq::new(i as nat, |k: int| 0u8));
    }
    out
}

/// `n` rounded up to a multiple of `alignment`.
pub open spec fn spec_round_up(n: int, alignment: int) -> int {
    ((n + alignment - 1) / alignment) * alignment
}

/// `n` rounded up to a multiple of `alignment`.
pub fn round_up(n: u64, alignment: u64) -> (r: u64)
    requires
        alignment > 0,
        n + alignment - 1 <= u64::MAX,
    ensures
        r == spec_round_up(n as int, alignment as int),
        r >= n,
        r % alignment == 0,
{
    let q = (n + (alignment - 1)) / alignment;
    proof {
        lemma_round_up(n as int, alignment as int);
    }
    q * alignment
}

pub proof fn lemma_round_up(n: int, alignment: int)
    requires
        alignment > 0,
        n >= 0,
    ensures
        spec_round_up(n, alignment) >= n,
        spec_round_up(n, alignment) < n + alignment,
        spec_round_up(n, alignment) % alignment == 0,
        n % alignment == 0 ==> spec_round_up(n, alignment) == n,
{
    let q = (n + alignment - 1) / alignment;
    vstd::arithmetic::div_mod::lemma_fundamental_div_mod(n + alignment - 1, alignment);
    vstd::arithmetic::div_mod::lemma_mod_pos_bound(n + alignment - 1, alignment);
    vstd::arithmetic::div_mod::lemma_mod_multiples_basic(q, alignment);
    assert(q * alignment == alignment * q) by (nonlinear_arith);
    if n % alignment == 0 {
        vstd::arithmetic::div_mod::lemma_fundamental_div_mod(n, alignment);
        let k = n / alignment;
        vstd::arithmetic::div_mod::lemma_div_multiples_vanish_fancy(k, alignment - 1, alignment);
        assert(n + alignment - 1 == alignment * k + (alignment - 1));
    }
}

/// `n` more steps of the bitwise CRC-32 (IEEE, reflected polynomial 0xEDB88320).
pub open spec fn crc32_bits(c: u32, n: nat) -> u32
    decreases n,
{
    if n == 0 {
        c
    } else {
        crc32_bits(if c & 1 == 1 { (c >> 1u32) ^ 0xEDB88320u32 } else { c >> 1u32 }, (n - 1) as nat)
    }
}

/// The CRC-32 register after the bytes, from `crc`.
pub open spec fn crc32_update(crc: u32, bytes: Seq<u8>) -> u32
    decreases bytes.len(),
{
    if bytes.len() == 0 {
        crc
    } else {
        crc32_bits(crc32_update(crc, bytes.drop_last()) ^ (bytes.last() as u32), 8)
    }
}

/// The CRC-32 (IEEE) checksum of the bytes.
pub open spec fn crc32(bytes: Seq<u8>) -> u32 {
    !crc32_update(0xFFFF_FFFFu32, bytes)
}

/// The UTF-8 encoding of one character.
pub open spec fn char_utf8(c: char) -> Seq<u8> {
    let v = c as u32;
    if v < 0x80 {
        seq![v as u8]
    } else if v < 0x800 {
        seq![(0xC0 | (v >> 6u32)) as u8, (0x80 | (v & 0x3F)) as u8]
    } else if v < 0x10000 {
        seq![(0xE0 | (v >> 12u32)) as u8, (0x80 | ((v >> 6u32) & 0x3F)) as u8, (0x80 | (v & 0x3F)) as u8]
    } else {
        seq![
            (0xF0 | (v >> 18u32)) as u8,
            (0x80 | ((v >> 12u32) & 0x3F)) as u8,
            (0x80 | ((v >> 6u32) & 0x3F)) as u8,
            (0x80 | (v & 0x3F)) as u8,
        ]
    }
}

/// The UTF-8 bytes of a text.
pub open spec fn utf8_bytes(text: Seq<char>) -> Seq<u8>
    decreases text.len(),
{
    if text.len() == 0 {
        Seq::empty()
    } else {
        utf8_bytes(text.drop_last()) + char_utf8(text.last())
    }
}

} // verus!
