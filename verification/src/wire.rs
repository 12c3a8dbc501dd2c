//! Big-endian encoding of 32-bit words, the byte order of the chunk wire
//! format's length and checksum fields.

use vstd::prelude::*;

verus! {

/// The 4-byte big-endian encoding of a 32-bit word: most significant byte
/// first.
pub open spec fn spec_u32_to_be_bytes(x: u32) -> Seq<u8> {
    seq![
        ((x >> 24) & 0xff) as u8,
        ((x >> 16) & 0xff) as u8,
        ((x >> 8) & 0xff) as u8,
        (x & 0xff) as u8,
    ]
}

/// The 32-bit word that 4 bytes spell in big-endian order.
pub open spec fn spec_u32_from_be_bytes(s: Seq<u8>) -> u32
    recommends
        s.len() == 4,
{
    (s[0] as u32) << 24 | (s[1] as u32) << 16 | (s[2] as u32) << 8 | (s[3] as u32)
}

/// A word survives encoding to big-endian bytes and reading them back.
pub proof fn lemma_u32_be_bytes_roundtrip(x: u32)
    ensures
        spec_u32_to_be_bytes(x).len() == 4,
        spec_u32_from_be_bytes(spec_u32_to_be_bytes(x)) == x,
{
    assert({
        &&& (x >> 24) & 0xff < 256
        &&& (x >> 16) & 0xff < 256
        &&& (x >> 8) & 0xff < 256
        &&& x & 0xff < 256
    }) by (bit_vector);
    assert(x == ((x >> 24) & 0xff) << 24 | ((x >> 16) & 0xff) << 16 | ((x >> 8) & 0xff) << 8 | (
    x & 0xff)) by (bit_vector);
}

/// Four bytes survive being read as a big-endian word and encoded again.
pub proof fn lemma_u32_be_bytes_reencode(s: Seq<u8>)
    requires
        s.len() == 4,
    ensures
        spec_u32_to_be_bytes(spec_u32_from_be_bytes(s)) == s,
{
    let x = spec_u32_from_be_bytes(s);
    let s0 = s[0] as u32;
    let s1 = s[1] as u32;
    let s2 = s[2] as u32;
    let s3 = s[3] as u32;
    assert((x == s0 << 24 | s1 << 16 | s2 << 8 | s3 && s0 < 256 && s1 < 256 && s2 < 256 && s3
        < 256) ==> s0 == (x >> 24) & 0xff && s1 == (x >> 16) & 0xff && s2 == (x >> 8) & 0xff && s3
        == x & 0xff) by (bit_vector);
    assert(spec_u32_to_be_bytes(spec_u32_from_be_bytes(s)) =~= s);
}

/// Writes a 32-bit word as 4 bytes in big-endian order.
pub fn u32_to_be_bytes(x: u32) -> (r: [u8; 4])
    ensures
        r@ == spec_u32_to_be_bytes(x),
{
    let r: [u8; 4] = [
        ((x >> 24) & 0xff) as u8,
        ((x >> 16) & 0xff) as u8,
        ((x >> 8) & 0xff) as u8,
        (x & 0xff) as u8,
    ];
    proof {
        assert(r@ =~= spec_u32_to_be_bytes(x));
    }
    r
}

/// Reads the 32-bit word stored in big-endian order at `offset`.
pub fn u32_from_be_bytes(bytes: &[u8], offset: usize) -> (r: u32)
    requires
        offset + 4 <= bytes@.len(),
    ensures
        r == spec_u32_from_be_bytes(bytes@.subrange(offset as int, offset as int + 4)),
{
    proof {
        vstd::slice::axiom_spec_len(bytes);
    }
    let b0 = *vstd::slice::slice_index_get(bytes, offset);
    let b1 = *vstd::slice::slice_index_get(bytes, offset + 1);
    let b2 = *vstd::slice::slice_index_get(bytes, offset + 2);
    let b3 = *vstd::slice::slice_index_get(bytes, offset + 3);
    let r = (b0 as u32) << 24 | (b1 as u32) << 16 | (b2 as u32) << 8 | (b3 as u32);
    proof {
        let s = bytes@.subrange(offset as int, offset as int + 4);
        assert(s[0] == b0 && s[1] == b1 && s[2] == b2 && s[3] == b3);
    }
    r
}

} // verus!
