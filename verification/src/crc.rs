//! The CRC-32 checksum (IEEE 802.3 polynomial) used to protect each chunk.
//!
//! The checksum itself is computed by the `crc32fast` crate; this module
//! gives its result a name, [`crc32_of`], that the rest of the library's
//! contracts are stated over.

use vstd::prelude::*;

verus! {

/// The IEEE CRC-32 of a byte sequence, as `crc32fast::hash` computes it.
pub uninterp spec fn crc32_of(bytes: Seq<u8>) -> u32;

/// Relies on `crc32fast::hash`: the IEEE CRC-32 of the bytes, a function of
/// the bytes alone.
#[verifier::external_body]
pub(crate) fn crc32(bytes: &[u8]) -> (r: u32)
    ensures
        r == crc32_of(bytes@),
{
    crc32fast::hash(bytes)
}

} // verus!
