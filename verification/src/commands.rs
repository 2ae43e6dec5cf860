//! The compute half of each command: bytes in, bytes (or text) out.
//!
//! The calling layer reads the file, hands its bytes here, and writes or
//! prints what comes back. Nothing here touches the filesystem.

use vstd::prelude::*;

use crate::chunk::{Chunk, ChunkModel};
use crate::chunk_type::{spec_valid_type_text, ChunkType};
use crate::crc::crc32_of;
use crate::error::PngError;
use crate::png::{spec_find, spec_parse_png, spec_remove, spec_serialize_png, Png};
use vstd::string::StringSliceAdditionalSpecFns;
use vstd::utf8::{decode_utf8, valid_utf8};

verus! {

/// The chunk that hiding `message` under `chunk_type` appends.
pub open spec fn spec_message_chunk(chunk_type: Seq<u8>, message: Seq<u8>) -> ChunkModel {
    ChunkModel {
        length: message.len() as u32,
        chunk_type: chunk_type,
        data: message,
        crc: crc32_of(chunk_type + message),
    }
}

/// Hides a message: parses the file bytes, appends a chunk of the given
/// type carrying the message, and returns the reserialized stream. The
/// type text must be 4 alphabetic bytes; file errors come first.
pub fn encode(file_bytes: &[u8], chunk_type: &str, message: &str) -> (r: Result<
    Vec<u8>,
    PngError,
>)
    requires
        message.spec_bytes().len() <= u32::MAX,
    ensures
        match spec_parse_png(file_bytes@) {
            Err(e) => r == Err::<Vec<u8>, PngError>(e),
            Ok(chunks) => {
                if spec_valid_type_text(chunk_type.spec_bytes()) {
                    r matches Ok(out) && out@ == spec_serialize_png(
                        chunks.push(
                            spec_message_chunk(chunk_type.spec_bytes(), message.spec_bytes()),
                        ),
                    )
                } else {
                    r == Err::<Vec<u8>, PngError>(PngError::NonAlphabetic)
                }
            },
        },
{
    let mut png = match Png::parse(file_bytes) {
        Ok(p) => p,
        Err(e) => {
            return Err(e);
        },
    };
    let t = match ChunkType::from_text(chunk_type) {
        Ok(t) => t,
        Err(e) => {
            return Err(e);
        },
    };
    let data = vstd::slice::slice_to_vec(message.as_bytes());
    let chunk = Chunk::new(t, data);
    png.append_chunk(chunk);
    Ok(png.as_bytes())
}

/// Retrieves a message: parses the file bytes and decodes the payload of
/// the first chunk of the given type as UTF-8 text. Absence is a normal
/// outcome, not an error.
pub fn decode(file_bytes: &[u8], chunk_type: &str) -> (r: Result<Option<String>, PngError>)
    ensures
        match spec_parse_png(file_bytes@) {
            Err(e) => r == Err::<Option<String>, PngError>(e),
            Ok(chunks) => match spec_find(chunks, chunk_type.spec_bytes()) {
                None => r == Ok::<Option<String>, PngError>(None),
                Some(m) => match r {
                    Ok(Some(s)) => valid_utf8(m.data) && s@ == decode_utf8(m.data),
                    Ok(None) => false,
                    Err(e) => e == PngError::InvalidUtf8 && !valid_utf8(m.data),
                },
            },
        },
{
    let png = match Png::parse(file_bytes) {
        Ok(p) => p,
        Err(e) => {
            return Err(e);
        },
    };
    match png.chunk_by_type(chunk_type) {
        None => Ok(None),
        Some(c) => match c.data_as_string() {
            Ok(s) => Ok(Some(s)),
            Err(e) => Err(e),
        },
    }
}

/// Unhides a message: parses the file bytes, removes the first chunk of the
/// given type, and returns the reserialized stream. A missing type is an
/// error here, since the caller asked for a change.
pub fn remove(file_bytes: &[u8], chunk_type: &str) -> (r: Result<Vec<u8>, PngError>)
    ensures
        match spec_parse_png(file_bytes@) {
            Err(e) => r == Err::<Vec<u8>, PngError>(e),
            Ok(chunks) => match spec_remove(chunks, chunk_type.spec_bytes()) {
                None => r == Err::<Vec<u8>, PngError>(PngError::ChunkTypeAbsent),
                Some((m, rest)) => r matches Ok(out) && out@ == spec_serialize_png(rest),
            },
        },
{
    let mut png = match Png::parse(file_bytes) {
        Ok(p) => p,
        Err(e) => {
            return Err(e);
        },
    };
    match png.remove_chunk(chunk_type) {
        Ok(_) => Ok(png.as_bytes()),
        Err(e) => Err(e),
    }
}

} // verus!
