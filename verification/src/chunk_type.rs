//! The 4-byte PNG chunk type code and its bit-field predicates.
//!
//! Bit 5 (the ASCII lowercase bit) of each of the four bytes carries one
//! structural flag: critical, public, reserved-bit-valid, safe-to-copy.
//! A type code can be built from raw bytes (total, so that arbitrary
//! existing files can be parsed) or from text (constrained to ASCII
//! alphabetic bytes, for user-supplied type codes).

use vstd::prelude::*;

use crate::error::PngError;
use crate::text::{bytes_as_text, spec_lenient_text};
use vstd::string::StringSliceAdditionalSpecFns;

verus! {

/// An ASCII letter, upper or lower case.
pub open spec fn spec_is_alphabetic(b: u8) -> bool {
    (65 <= b <= 90) || (97 <= b <= 122)
}

/// Bit 5 of a byte, the bit that distinguishes an ASCII lowercase letter
/// from its uppercase form.
pub open spec fn spec_bit5_set(b: u8) -> bool {
    (b >> 5) & 1 == 1
}

/// Text that the constrained constructor accepts: exactly 4 bytes, all
/// ASCII alphabetic.
pub open spec fn spec_valid_type_text(b: Seq<u8>) -> bool {
    b.len() == 4 && (forall|i: int| 0 <= i < b.len() ==> spec_is_alphabetic(#[trigger] b[i]))
}

/// The overall validity check: safe-to-copy and all four bytes alphabetic.
/// The reserved bit is deliberately not part of this combined check.
pub open spec fn spec_is_valid(t: Seq<u8>) -> bool {
    &&& spec_bit5_set(t[3])
    &&& forall|i: int| 0 <= i < 4 ==> spec_is_alphabetic(#[trigger] t[i])
}

/// A 4-byte PNG chunk type code.
#[derive(Debug, Clone, PartialEq, Eq)]
pub struct ChunkType {
    pub contents: [u8; 4],
}

impl View for ChunkType {
    type V = Seq<u8>;

    open spec fn view(&self) -> Seq<u8> {
        self.contents@
    }
}

/// True exactly when `b` is an ASCII letter.
pub fn is_alphabetic_byte(b: u8) -> (r: bool)
    ensures
        r == spec_is_alphabetic(b),
{
    (65 <= b && b <= 90) || (97 <= b && b <= 122)
}

impl ChunkType {
    /// Wraps 4 raw bytes as a type code. Total: parsing real files must
    /// tolerate non-alphabetic type bytes.
    pub fn from_bytes(bytes: [u8; 4]) -> (r: ChunkType)
        ensures
            r@ == bytes@,
    {
        ChunkType { contents: bytes }
    }

    /// Wraps a textual type code, rejecting any text that is not exactly
    /// 4 ASCII alphabetic bytes.
    pub fn from_text(s: &str) -> (r: Result<ChunkType, PngError>)
        ensures
            match r {
                Ok(t) => spec_valid_type_text(s.spec_bytes()) && t@ == s.spec_bytes(),
                Err(e) => e == PngError::NonAlphabetic && !spec_valid_type_text(s.spec_bytes()),
            },
    {
        let b = s.as_bytes();
        if b.len() != 4 {
            return Err(PngError::NonAlphabetic);
        }
        let b0 = *vstd::slice::slice_index_get(b, 0);
        let b1 = *vstd::slice::slice_index_get(b, 1);
        let b2 = *vstd::slice::slice_index_get(b, 2);
        let b3 = *vstd::slice::slice_index_get(b, 3);
        if !(is_alphabetic_byte(b0) && is_alphabetic_byte(b1) && is_alphabetic_byte(b2)
            && is_alphabetic_byte(b3)) {
            return Err(PngError::NonAlphabetic);
        }
        let t = ChunkType { contents: [b0, b1, b2, b3] };
        proof {
            assert(t@ =~= s.spec_bytes());
        }
        Ok(t)
    }

    /// The 4 raw bytes of the type code.
    pub fn bytes(&self) -> (r: [u8; 4])
        ensures
            r@ == self@,
    {
        self.contents
    }

    /// Critical: bit 5 of byte 0 is clear (the first letter is uppercase).
    pub fn is_critical(&self) -> (r: bool)
        ensures
            r == !spec_bit5_set(self@[0]),
    {
        let b = self.contents[0];
        proof {
            assert(((b >> 5) & 1 == 0) == !((b >> 5) & 1 == 1)) by (bit_vector);
        }
        (b >> 5) & 1 == 0
    }

    /// Public: bit 5 of byte 1 is clear.
    pub fn is_public(&self) -> (r: bool)
        ensures
            r == !spec_bit5_set(self@[1]),
    {
        let b = self.contents[1];
        proof {
            assert(((b >> 5) & 1 == 0) == !((b >> 5) & 1 == 1)) by (bit_vector);
        }
        (b >> 5) & 1 == 0
    }

    /// Reserved bit valid: byte 2 is an ASCII uppercase letter.
    pub fn is_reserved_bit_valid(&self) -> (r: bool)
        ensures
            r == (65 <= self@[2] <= 90),
    {
        let b = self.contents[2];
        65 <= b && b <= 90
    }

    /// Safe to copy: bit 5 of byte 3 is set (the last letter is lowercase).
    pub fn is_safe_to_copy(&self) -> (r: bool)
        ensures
            r == spec_bit5_set(self@[3]),
    {
        let b = self.contents[3];
        (b >> 5) & 1 == 1
    }

    /// Safe-to-copy and all four bytes alphabetic. The reserved bit is
    /// deliberately left out of this combined check.
    pub fn is_valid(&self) -> (r: bool)
        ensures
            r == spec_is_valid(self@),
    {
        if !self.is_safe_to_copy() {
            return false;
        }
        let r = is_alphabetic_byte(self.contents[0]) && is_alphabetic_byte(self.contents[1])
            && is_alphabetic_byte(self.contents[2]) && is_alphabetic_byte(self.contents[3]);
        proof {
            if !r {
                assert(!spec_is_valid(self@));
            }
        }
        r
    }

    /// The type code rendered as text: its UTF-8 decoding, or empty text
    /// when the bytes are not valid UTF-8. Display-only leniency; not a
    /// correctness check.
    pub fn to_text(&self) -> (r: String)
        ensures
            r@ == spec_lenient_text(self@),
    {
        let mut v: Vec<u8> = Vec::new();
        v.push(self.contents[0]);
        v.push(self.contents[1]);
        v.push(self.contents[2]);
        v.push(self.contents[3]);
        proof {
            assert(v@ =~= self@);
        }
        match bytes_as_text(v) {
            Some(s) => s,
            None => String::new(),
        }
    }
}

} // verus!
