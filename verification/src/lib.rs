//! A verified library for the chunk-based binary structure of PNG files.
//!
//! PNG files carry their payload in length-prefixed, CRC-checked chunks.
//! This crate models that structure exactly: [`chunk_type::ChunkType`] is the
//! 4-byte type code with its bit-field predicates, [`chunk::Chunk`] is one
//! length-prefixed record with CRC-32 integrity, and [`png::Png`] is the
//! ordered chunk container behind the fixed 8-byte signature. Ancillary
//! chunks can carry arbitrary messages, which [`commands`] hides and
//! retrieves without corrupting the rest of the image.

pub mod args;
pub mod byteorder;
pub mod chunk;
pub mod chunk_type;
pub mod commands;
pub mod crc;
pub mod error;
pub mod png;
pub mod text;
