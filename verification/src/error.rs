//! The error taxonomy of the library.
//!
//! Every fallible operation returns a typed result; the library itself never
//! panics and never prints. A framing or checksum failure invalidates the
//! whole parse, since a corrupted framing byte invalidates all subsequent
//! offsets.

use vstd::prelude::*;

verus! {

/// Everything that can go wrong while parsing, building or editing a PNG
/// byte stream.
#[derive(Clone, Copy, Debug, PartialEq, Eq, Structural)]
pub enum PngError {
    /// The first 8 bytes of the stream are not the PNG signature.
    BadSignature,
    /// The buffer ends before the chunk record it announces is complete.
    Truncated,
    /// A chunk's stored CRC does not match the CRC-32 of its type and data.
    CrcMismatch,
    /// A textual chunk type was not exactly 4 ASCII alphabetic bytes.
    NonAlphabetic,
    /// A chunk payload was read as text but is not valid UTF-8.
    InvalidUtf8,
    /// No chunk of the requested type is present.
    ChunkTypeAbsent,
}

} // verus!
