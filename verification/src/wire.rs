//! Big-endian byte-level helpers shared by the STUN codec and ChannelData
//! framing: 16- and 32-bit reads and writes, 4-byte padding, and the little
//! lemmas that connect the two directions.

use vstd::prelude::*;

verus! {

/// The big-endian encoding of a 16-bit value.
pub open spec fn be16(x: u16) -> Seq<u8> {
    seq![(x >> 8) as u8, x as u8]
}

/// The big-endian encoding of a 32-bit value.
pub open spec fn be32(x: u32) -> Seq<u8> {
    seq![(x >> 24) as u8, (x >> 16) as u8, (x >> 8) as u8, x as u8]
}

/// The 16-bit value read big-endian from two bytes.
pub open spec fn u16_of(b0: u8, b1: u8) -> u16 {
    ((b0 as u16) << 8) | (b1 as u16)
}

/// The 32-bit value read big-endian from four bytes.
pub open spec fn u32_of(b0: u8, b1: u8, b2: u8, b3: u8) -> u32 {
    ((b0 as u32) << 24) | ((b1 as u32) << 16) | ((b2 as u32) << 8) | (b3 as u32)
}

/// Reading back the two bytes of `be16(x)` yields `x`.
pub proof fn lemma_be16_roundtrip(x: u16)
    ensures
        u16_of(be16(x)[0], be16(x)[1]) == x,
{
    assert(((((x >> 8) as u8) as u16) << 8) | ((x as u8) as u16) == x) by (bit_vector);
}

/// Encoding the value read from two bytes yields the same two bytes.
pub proof fn lemma_u16_of_inverse(b0: u8, b1: u8)
    ensures
        be16(u16_of(b0, b1)) == seq![b0, b1],
{
    assert(((((b0 as u16) << 8) | (b1 as u16)) >> 8) as u8 == b0) by (bit_vector);
    assert((((b0 as u16) << 8) | (b1 as u16)) as u8 == b1) by (bit_vector);
    assert(be16(u16_of(b0, b1)) =~= seq![b0, b1]);
}

/// Reading back the four bytes of `be32(x)` yields `x`.
pub proof fn lemma_be32_roundtrip(x: u32)
    ensures
        u32_of(be32(x)[0], be32(x)[1], be32(x)[2], be32(x)[3]) == x,
{
    assert(((((x >> 24) as u8) as u32) << 24) | ((((x >> 16) as u8) as u32) << 16)
        | ((((x >> 8) as u8) as u32) << 8) | ((x as u8) as u32) == x) by (bit_vector);
}

/// Encoding the value read from four bytes yields the same four bytes.
pub proof fn lemma_u32_of_inverse(b0: u8, b1: u8, b2: u8, b3: u8)
    ensures
        be32(u32_of(b0, b1, b2, b3)) == seq![b0, b1, b2, b3],
{
    assert(((((b0 as u32) << 24) | ((b1 as u32) << 16) | ((b2 as u32) << 8) | (b3 as u32)) >> 24) as u8 == b0
        && ((((b0 as u32) << 24) | ((b1 as u32) << 16) | ((b2 as u32) << 8) | (b3 as u32)) >> 16) as u8 == b1
        && ((((b0 as u32) << 24) | ((b1 as u32) << 16) | ((b2 as u32) << 8) | (b3 as u32)) >> 8) as u8 == b2
        && (((b0 as u32) << 24) | ((b1 as u32) << 16) | ((b2 as u32) << 8) | (b3 as u32)) as u8 == b3) by (bit_vector);
    assert(be32(u32_of(b0, b1, b2, b3)) =~= seq![b0, b1, b2, b3]);
}

/// The 16-bit value read from two bytes is under 0x4000 exactly when the
/// first byte is under 0x40.
pub proof fn lemma_u16_of_high_byte(b0: u8, b1: u8)
    ensures
        (u16_of(b0, b1) < 0x4000) == (b0 < 0x40),
{
    assert(((((b0 as u16) << 8) | (b1 as u16)) < 0x4000) == (b0 < 0x40)) by (bit_vector);
}

/// The 16-bit value read from two bytes lies in the channel range
/// exactly when the first byte lies in `0x40..=0x7F`.
pub proof fn lemma_u16_of_channel_byte(b0: u8, b1: u8)
    ensures
        (0x4000 <= u16_of(b0, b1) && u16_of(b0, b1) <= 0x7FFF) == (0x40 <= b0 && b0 <= 0x7F),
{
    assert((0x4000 <= (((b0 as u16) << 8) | (b1 as u16)) && (((b0 as u16) << 8) | (b1 as u16))
        <= 0x7FFF) == (0x40 <= b0 && b0 <= 0x7F)) by (bit_vector);
}

/// XOR with the same 16-bit mask twice gives the value back.
pub proof fn lemma_xor16_involution(x: u16, c: u16)
    ensures
        (x ^ c) ^ c == x,
{
    assert((x ^ c) ^ c == x) by (bit_vector);
}

/// XOR with the same 32-bit mask twice gives the value back.
pub proof fn lemma_xor32_involution(x: u32, c: u32)
    ensures
        (x ^ c) ^ c == x,
{
    assert((x ^ c) ^ c == x) by (bit_vector);
}

/// How many zero bytes pad a field of `n` bytes to a 4-byte boundary.
pub open spec fn pad_len(n: int) -> int {
    if n % 4 == 0 {
        0
    } else {
        4 - n % 4
    }
}

/// A run of zero bytes.
pub open spec fn zeros(n: int) -> Seq<u8> {
    Seq::new(n as nat, |i: int| 0u8)
}

/// Appends the big-endian encoding of `x` to `dst`.
pub fn push_u16(dst: &mut Vec<u8>, x: u16)
    ensures
        final(dst)@ == old(dst)@ + be16(x),
{
    dst.push((x >> 8) as u8);
    dst.push(x as u8);
    assert(dst@ =~= old(dst)@ + be16(x));
}

/// Appends the big-endian encoding of `x` to `dst`.
pub fn push_u32(dst: &mut Vec<u8>, x: u32)
    ensures
        final(dst)@ == old(dst)@ + be32(x),
{
    dst.push((x >> 24) as u8);
    dst.push((x >> 16) as u8);
    dst.push((x >> 8) as u8);
    dst.push(x as u8);
    assert(dst@ =~= old(dst)@ + be32(x));
}

/// Reads a big-endian 16-bit value at offset `i`.
pub fn read_u16(buf: &[u8], i: usize) -> (r: u16)
    requires
        i + 2 <= buf@.len(),
    ensures
        r == u16_of(buf@[i as int], buf@[i + 1]),
{
    ((buf[i] as u16) << 8) | (buf[i + 1] as u16)
}

/// Reads a big-endian 32-bit value at offset `i`.
pub fn read_u32(buf: &[u8], i: usize) -> (r: u32)
    requires
        i + 4 <= buf@.len(),
    ensures
        r == u32_of(buf@[i as int], buf@[i + 1], buf@[i + 2], buf@[i + 3]),
{
    ((buf[i] as u32) << 24) | ((buf[i + 1] as u32) << 16) | ((buf[i + 2] as u32) << 8) | (buf[i
        + 3] as u32)
}

/// Appends all of `src` to `dst`.
pub fn push_bytes(dst: &mut Vec<u8>, src: &[u8])
    ensures
        final(dst)@ == old(dst)@ + src@,
{
    let n = src.len();
    for j in 0..n
        invariant
            n == src@.len(),
            dst@ == old(dst)@ + src@.take(j as int),
    {
        dst.push(src[j]);
        assert(dst@ =~= old(dst)@ + src@.take(j + 1));
    }
    assert(dst@ =~= old(dst)@ + src@);
}

/// Appends `n` zero bytes to `dst`.
pub fn push_zeros(dst: &mut Vec<u8>, n: usize)
    ensures
        final(dst)@ == old(dst)@ + zeros(n as int),
{
    for j in 0..n
        invariant
            dst@ == old(dst)@ + zeros(j as int),
    {
        dst.push(0u8);
        assert(dst@ =~= old(dst)@ + zeros(j + 1));
    }
}

/// The concatenation of two 2-byte encodings, spelled element by element.
pub proof fn lemma_be16_pair(a: u16, b: u16)
    ensures
        be16(a) + be16(b) =~= seq![be16(a)[0], be16(a)[1], be16(b)[0], be16(b)[1]],
{
}

/// Compares two byte slices for equality.
pub fn bytes_eq(a: &[u8], b: &[u8]) -> (r: bool)
    ensures
        r == (a@ == b@),
{
    let n = a.len();
    if n != b.len() {
        return false;
    }
    for i in 0..n
        invariant
            n == a@.len() && n == b@.len(),
            forall|k: int| 0 <= k < i ==> a@[k] == b@[k],
    {
        if a[i] != b[i] {
            return false;
        }
    }
    proof {
        assert(a@ =~= b@);
    }
    true
}

/// Copies `src` into a fresh vector.
pub fn bytes_of(src: &[u8]) -> (r: Vec<u8>)
    ensures
        r@ == src@,
{
    let mut r: Vec<u8> = Vec::new();
    push_bytes(&mut r, src);
    r
}

/// Copies `src[i..j]` into a fresh vector.
pub fn subrange_of(src: &[u8], i: usize, j: usize) -> (r: Vec<u8>)
    requires
        i <= j <= src@.len(),
    ensures
        r@ == src@.subrange(i as int, j as int),
{
    let mut r: Vec<u8> = Vec::new();
    for k in i..j
        invariant
            i <= k <= j <= src@.len(),
            r@ == src@.subrange(i as int, k as int),
    {
        r.push(src[k]);
        assert(r@ =~= src@.subrange(i as int, k + 1));
    }
    r
}

} // verus!
