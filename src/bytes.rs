//! Little-endian integers, length-prefixed strings and booleans, written onto
//! the end of a growable byte buffer.
use vstd::prelude::*;
use crate::zlib::{compress, compressed};

verus! {

/// The two bytes of `v`, lowest first.
pub open spec fn u16_le(v: u16) -> Seq<u8> {
    seq![(v % 256) as u8, (v / 256) as u8]
}

/// The four bytes of `v`, lowest first.
pub open spec fn u32_le(v: u32) -> Seq<u8> {
    seq![
        (v % 256) as u8,
        ((v / 256) % 256) as u8,
        ((v / 65536) % 256) as u8,
        (v / 16777216) as u8,
    ]
}

/// The four bytes of `v`, highest first.
pub open spec fn u32_be(v: u32) -> Seq<u8> {
    seq![
        (v / 16777216) as u8,
        ((v / 65536) % 256) as u8,
        ((v / 256) % 256) as u8,
        (v % 256) as u8,
    ]
}

/// The eight bytes of `v`, lowest first.
pub open spec fn u64_le(v: u64) -> Seq<u8> {
    u32_le((v % 4294967296) as u32) + u32_le((v / 4294967296) as u32)
}

/// A signed 32-bit value in two's complement.
pub open spec fn i32_le(v: i32) -> Seq<u8> {
    u32_le(v as u32)
}

/// A boolean as a 32-bit integer: 1 for true, 0 for false.
#[verifier::opaque]
pub open spec fn bool_le(b: bool) -> Seq<u8> {
    u32_le(if b { 1u32 } else { 0u32 })
}

/// A string as its 32-bit length followed by its bytes, unchanged.
pub open spec fn pas(s: Seq<u8>) -> Seq<u8> {
    u32_le(s.len() as u32) + s
}

/// Appends one byte.
pub fn put_u8(out: &mut Vec<u8>, v: u8)
    ensures
        final(out)@ == old(out)@.push(v),
{
    out.push(v);
}

/// Appends `v` in two little-endian bytes.
pub fn put_u16(out: &mut Vec<u8>, v: u16)
    ensures
        final(out)@ == old(out)@ + u16_le(v),
{
    out.push((v % 256) as u8);
    out.push((v / 256) as u8);
    assert(out@ =~= old(out)@ + u16_le(v));
}

/// Appends `v` in four little-endian bytes.
pub fn put_u32(out: &mut Vec<u8>, v: u32)
    ensures
        final(out)@ == old(out)@ + u32_le(v),
{
    out.push((v % 256) as u8);
    out.push(((v / 256) % 256) as u8);
    out.push(((v / 65536) % 256) as u8);
    out.push((v / 16777216) as u8);
    assert(out@ =~= old(out)@ + u32_le(v));
}

/// Appends `v` in four big-endian bytes.
pub fn put_u32_be(out: &mut Vec<u8>, v: u32)
    ensures
        final(out)@ == old(out)@ + u32_be(v),
{
    out.push((v / 16777216) as u8);
    out.push(((v / 65536) % 256) as u8);
    out.push(((v / 256) % 256) as u8);
    out.push((v % 256) as u8);
    assert(out@ =~= old(out)@ + u32_be(v));
}

/// Appends `v` in eight little-endian bytes.
pub fn put_u64(out: &mut Vec<u8>, v: u64)
    ensures
        final(out)@ == old(out)@ + u64_le(v),
{
    put_u32(out, (v % 4294967296) as u32);
    put_u32(out, (v / 4294967296) as u32);
    assert(out@ =~= old(out)@ + u64_le(v));
}

/// Appends `v` in four bytes, two's complement.
pub fn put_i32(out: &mut Vec<u8>, v: i32)
    ensures
        final(out)@ == old(out)@ + i32_le(v),
{
    put_u32(out, v as u32);
}

/// Appends a boolean as the integer 1 or 0.
pub fn put_bool(out: &mut Vec<u8>, b: bool)
    ensures
        final(out)@ == old(out)@ + bool_le(b),
{
    put_u32(out, if b { 1u32 } else { 0u32 });
    reveal(bool_le);
}

/// Appends the bytes of `s` as they are.
pub fn put_bytes(out: &mut Vec<u8>, s: &Vec<u8>)
    ensures
        final(out)@ == old(out)@ + s@,
{
    let mut i: usize = 0;
    while i < s.len()
        invariant
            i <= s.len(),
            out@ == old(out)@ + s@.subrange(0, i as int),
        decreases s.len() - i,
    {
        out.push(s[i]);
        i = i + 1;
        assert(out@ =~= old(out)@ + s@.subrange(0, i as int));
    }
    assert(s@.subrange(0, s.len() as int) =~= s@);
}

/// Appends a string as its 32-bit length and its bytes.
pub fn put_pas(out: &mut Vec<u8>, s: &Vec<u8>)
    requires
        s@.len() <= u32::MAX,
    ensures
        final(out)@ == old(out)@ + pas(s@),
{
    put_u32(out, s.len() as u32);
    put_bytes(out, s);
    assert(out@ =~= old(out)@ + pas(s@));
}

/// Tells whether two byte strings are equal.
pub fn same_bytes(a: &Vec<u8>, b: &Vec<u8>) -> (r: bool)
    ensures
        r == (a@ == b@),
{
    if a.len() != b.len() {
        return false;
    }
    let mut i: usize = 0;
    while i < a.len()
        invariant
            i <= a.len(),
            a.len() == b.len(),
            forall|j: int| 0 <= j < i ==> a@[j] == b@[j],
        decreases a.len() - i,
    {
        if a[i] != b[i] {
            return false;
        }
        i = i + 1;
    }
    assert(a@ =~= b@);
    true
}

/// Whether a length fits the 32-bit length field of the format.
pub open spec fn fits(s: Seq<u8>) -> bool {
    s.len() <= u32::MAX
}

/// Appends a string as its 32-bit length and its bytes; returns false, with
/// `out` left unspecified, when the string is too long for the length field.
pub fn put_str(out: &mut Vec<u8>, s: &Vec<u8>) -> (ok: bool)
    ensures
        ok == fits(s@),
        ok ==> final(out)@ == old(out)@ + pas(s@),
{
    if s.len() > u32::MAX as usize {
        return false;
    }
    put_pas(out, s);
    true
}

/// A compressed block: the length of the data, then its zlib stream with the
/// stream's own length in front.
pub open spec fn block(data: Seq<u8>) -> Seq<u8> {
    u32_le(data.len() as u32) + pas(compressed(data))
}

/// Whether `data` can be framed as a compressed block.
pub open spec fn block_fits(data: Seq<u8>) -> bool {
    fits(data) && fits(compressed(data))
}

/// Appends `data` as a compressed block; returns false when a length does
/// not fit its field.
pub fn put_block(out: &mut Vec<u8>, data: &Vec<u8>) -> (ok: bool)
    ensures
        ok == block_fits(data@),
        ok ==> final(out)@ == old(out)@ + block(data@),
{
    if data.len() > u32::MAX as usize {
        return false;
    }
    let c = compress(data);
    if c.len() > u32::MAX as usize {
        return false;
    }
    put_u32(out, data.len() as u32);
    put_pas(out, &c);
    assert(out@ =~= old(out)@ + block(data@));
    true
}

} // verus!
