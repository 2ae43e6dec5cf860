//! Big-endian encoding of 32-bit integers, the framing used by PNG for a
//! chunk's length and CRC fields.

use vstd::prelude::*;

verus! {

/// The 4-byte big-endian encoding of `x`.
pub open spec fn spec_u32_to_be_bytes(x: u32) -> Seq<u8> {
    seq![
        ((x >> 24) & 0xff) as u8,
        ((x >> 16) & 0xff) as u8,
        ((x >> 8) & 0xff) as u8,
        (x & 0xff) as u8,
    ]
}

/// The 32-bit integer whose big-endian encoding is the 4 bytes `s`.
pub open spec fn spec_u32_from_be_bytes(s: Seq<u8>) -> u32
    recommends
        s.len() == 4,
{
    ((s[0] as u32) << 24) | ((s[1] as u32) << 16) | ((s[2] as u32) << 8) | (s[3] as u32)
}

/// Decoding inverts encoding: the 4 bytes of `x` read back as `x`.
pub proof fn lemma_u32_be_bytes_roundtrip(x: u32)
    ensures
        spec_u32_to_be_bytes(x).len() == 4,
        spec_u32_from_be_bytes(spec_u32_to_be_bytes(x)) == x,
{
    assert({
        &&& (x >> 24) & 0xff < 256
        &&& (x >> 16) & 0xff < 256
        &&& (x >> 8) & 0xff < 256
        &&& x & 0xff < 256
    }) by (bit_vector);
    assert(x == ((((x >> 24) & 0xff) as u8 as u32) << 24) | ((((x >> 16) & 0xff) as u8 as u32)
        << 16) | ((((x >> 8) & 0xff) as u8 as u32) << 8) | ((x & 0xff) as u8 as u32))
        by (bit_vector);
}

/// Encoding inverts decoding: any 4 bytes are the encoding of the integer
/// they decode to.
pub proof fn lemma_u32_from_be_bytes_roundtrip(s: Seq<u8>)
    requires
        s.len() == 4,
    ensures
        spec_u32_to_be_bytes(spec_u32_from_be_bytes(s)) == s,
{
    let x = spec_u32_from_be_bytes(s);
    let s0 = s[0];
    let s1 = s[1];
    let s2 = s[2];
    let s3 = s[3];
    assert({
        let y = ((s0 as u32) << 24) | ((s1 as u32) << 16) | ((s2 as u32) << 8) | (s3 as u32);
        &&& ((y >> 24) & 0xff) as u8 == s0
        &&& ((y >> 16) & 0xff) as u8 == s1
        &&& ((y >> 8) & 0xff) as u8 == s2
        &&& (y & 0xff) as u8 == s3
    }) by (bit_vector);
    assert(spec_u32_to_be_bytes(x) =~= s);
}

/// Reads the big-endian 32-bit integer stored at `s[at .. at + 4]`.
pub fn u32_from_be_at(s: &[u8], at: usize) -> (x: u32)
    requires
        at + 4 <= s@.len(),
    ensures
        x == spec_u32_from_be_bytes(s@.subrange(at as int, at + 4)),
{
    let n = s.len();
    proof {
        assert(at + 4 <= n <= usize::MAX);
    }
    let b0 = *vstd::slice::slice_index_get(s, at);
    let b1 = *vstd::slice::slice_index_get(s, at + 1);
    let b2 = *vstd::slice::slice_index_get(s, at + 2);
    let b3 = *vstd::slice::slice_index_get(s, at + 3);
    let x = ((b0 as u32) << 24) | ((b1 as u32) << 16) | ((b2 as u32) << 8) | (b3 as u32);
    proof {
        let sub = s@.subrange(at as int, at + 4);
        assert(sub[0] == b0 && sub[1] == b1 && sub[2] == b2 && sub[3] == b3);
    }
    x
}

/// Appends the 4-byte big-endian encoding of `x` to `out`.
pub fn u32_to_be_extend(out: &mut Vec<u8>, x: u32)
    ensures
        final(out)@ == old(out)@ + spec_u32_to_be_bytes(x),
{
    proof {
        assert({
            &&& (x >> 24) & 0xff < 256
            &&& (x >> 16) & 0xff < 256
            &&& (x >> 8) & 0xff < 256
            &&& x & 0xff < 256
        }) by (bit_vector);
    }
    out.push(((x >> 24) & 0xff) as u8);
    out.push(((x >> 16) & 0xff) as u8);
    out.push(((x >> 8) & 0xff) as u8);
    out.push((x & 0xff) as u8);
    proof {
        assert(out@ =~= old(out)@ + spec_u32_to_be_bytes(x));
    }
}

} // verus!
