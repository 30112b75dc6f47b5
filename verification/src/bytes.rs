//! Big-endian (network byte order) encodings of the integer fields used by
//! the DHCPv6 wire format, together with the spec-level functions that the
//! codec contracts are stated over.

use vstd::prelude::*;

verus! {

/// The value of two bytes read in network byte order.
pub open spec fn be16v(b0: u8, b1: u8) -> int {
    b0 as int * 0x100 + b1 as int
}

/// The value of three bytes read in network byte order.
pub open spec fn be24v(b0: u8, b1: u8, b2: u8) -> int {
    b0 as int * 0x10000 + b1 as int * 0x100 + b2 as int
}

/// The value of four bytes read in network byte order.
pub open spec fn be32v(b0: u8, b1: u8, b2: u8, b3: u8) -> int {
    b0 as int * 0x1000000 + b1 as int * 0x10000 + b2 as int * 0x100 + b3 as int
}

/// The network-byte-order encoding of a 16-bit value.
pub open spec fn spec_be16(x: u16) -> Seq<u8> {
    seq![(x / 0x100) as u8, (x % 0x100) as u8]
}

/// The network-byte-order encoding of the low 24 bits of a value.
pub open spec fn spec_be24(x: u32) -> Seq<u8>
    recommends
        x < 0x100_0000,
{
    seq![(x / 0x10000) as u8, ((x / 0x100) % 0x100) as u8, (x % 0x100) as u8]
}

/// The network-byte-order encoding of a 32-bit value.
pub open spec fn spec_be32(x: u32) -> Seq<u8> {
    seq![
        (x / 0x1000000) as u8,
        ((x / 0x10000) % 0x100) as u8,
        ((x / 0x100) % 0x100) as u8,
        (x % 0x100) as u8,
    ]
}

/// Reading back an encoded 16-bit value yields the value.
pub proof fn lemma_be16_roundtrip(x: u16)
    ensures
        be16v(spec_be16(x)[0], spec_be16(x)[1]) == x,
{
}

/// Reading back an encoded 24-bit value yields the value.
pub proof fn lemma_be24_roundtrip(x: u32)
    requires
        x < 0x100_0000,
    ensures
        be24v(spec_be24(x)[0], spec_be24(x)[1], spec_be24(x)[2]) == x,
{
}

/// Reading back an encoded 32-bit value yields the value.
pub proof fn lemma_be32_roundtrip(x: u32)
    ensures
        be32v(spec_be32(x)[0], spec_be32(x)[1], spec_be32(x)[2], spec_be32(x)[3]) == x,
{
}

/// Read a 16-bit value from two bytes in network byte order.
pub fn read_be16(b0: u8, b1: u8) -> (r: u16)
    ensures
        r as int == be16v(b0, b1),
{
    b0 as u16 * 0x100 + b1 as u16
}

/// Read a 24-bit value from three bytes in network byte order.
pub fn read_be24(b0: u8, b1: u8, b2: u8) -> (r: u32)
    ensures
        r as int == be24v(b0, b1, b2),
        r < 0x100_0000,
{
    b0 as u32 * 0x10000 + b1 as u32 * 0x100 + b2 as u32
}

/// Read a 32-bit value from four bytes in network byte order.
pub fn read_be32(b0: u8, b1: u8, b2: u8, b3: u8) -> (r: u32)
    ensures
        r as int == be32v(b0, b1, b2, b3),
{
    b0 as u32 * 0x1000000 + b1 as u32 * 0x10000 + b2 as u32 * 0x100 + b3 as u32
}

/// Append the network-byte-order encoding of a 16-bit value.
pub fn push_be16(v: &mut Vec<u8>, x: u16)
    ensures
        final(v)@ == old(v)@ + spec_be16(x),
{
    v.push((x / 0x100) as u8);
    v.push((x % 0x100) as u8);
    assert(v@ =~= old(v)@ + spec_be16(x));
}

/// Append the network-byte-order encoding of the low 24 bits of a value.
pub fn push_be24(v: &mut Vec<u8>, x: u32)
    requires
        x < 0x100_0000,
    ensures
        final(v)@ == old(v)@ + spec_be24(x),
{
    v.push((x / 0x10000) as u8);
    v.push((x / 0x100 % 0x100) as u8);
    v.push((x % 0x100) as u8);
    assert(v@ =~= old(v)@ + spec_be24(x));
}

/// Append the network-byte-order encoding of a 32-bit value.
pub fn push_be32(v: &mut Vec<u8>, x: u32)
    ensures
        final(v)@ == old(v)@ + spec_be32(x),
{
    v.push((x / 0x1000000) as u8);
    v.push((x / 0x10000 % 0x100) as u8);
    v.push((x / 0x100 % 0x100) as u8);
    v.push((x % 0x100) as u8);
    assert(v@ =~= old(v)@ + spec_be32(x));
}

/// Append a copy of the given bytes.
pub fn append_bytes(v: &mut Vec<u8>, data: &[u8])
    ensures
        final(v)@ == old(v)@ + data@,
{
    let mut i: usize = 0;
    while i < data.len()
        invariant
            i <= data@.len(),
            v@ == old(v)@ + data@.subrange(0, i as int),
        decreases data@.len() - i,
    {
        v.push(data[i]);
        i = i + 1;
        assert(v@ =~= old(v)@ + data@.subrange(0, i as int));
    }
    assert(v@ =~= old(v)@ + data@);
}

/// An owned copy of a byte vector.
pub fn clone_bytes(v: &Vec<u8>) -> (r: Vec<u8>)
    ensures
        r@ == v@,
{
    let r = vstd::slice::slice_to_vec(v.as_slice());
    assert(r@ =~= v@);
    r
}


/// Overwrite `buf` at `pos` with a copy of `data`, leaving the rest.
pub fn write_at(buf: &mut Vec<u8>, pos: usize, data: &[u8])
    requires
        pos + data@.len() <= old(buf)@.len(),
    ensures
        final(buf)@.len() == old(buf)@.len(),
        final(buf)@ == old(buf)@.subrange(0, pos as int) + data@ + old(buf)@.skip(
            pos as int + data@.len() as int,
        ),
{
    let n = buf.len();
    let mut i: usize = 0;
    while i < data.len()
        invariant
            i <= data@.len(),
            n == buf@.len(),
            pos + data@.len() <= buf@.len(),
            buf@.len() == old(buf)@.len(),
            forall|j: int| 0 <= j < pos ==> buf@[j] == old(buf)@[j],
            forall|j: int| 0 <= j < i ==> buf@[pos + j] == data@[j],
            forall|j: int| pos + data@.len() <= j < buf@.len() ==> buf@[j] == old(buf)@[j],
            forall|j: int| pos + i <= j < buf@.len() ==> buf@[j] == old(buf)@[j],
        decreases data@.len() - i,
    {
        buf.set(pos + i, data[i]);
        i = i + 1;
    }
    assert(buf@ =~= old(buf)@.subrange(0, pos as int) + data@ + old(buf)@.skip(
        pos as int + data@.len() as int,
    ));
}


} // verus!
