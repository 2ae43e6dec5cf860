//! One PNG chunk: a length-prefixed record `{length, type, data, crc}`.
//!
//! On the wire a chunk is `length (4 bytes, big-endian) ++ type (4 bytes) ++
//! data (length bytes) ++ crc (4 bytes, big-endian)`, where the CRC-32 is
//! computed over the type and data bytes. Parsing verifies the CRC;
//! serialization is its exact inverse.

use vstd::prelude::*;

use crate::byteorder::{
    lemma_u32_be_bytes_roundtrip, spec_u32_from_be_bytes, spec_u32_to_be_bytes, u32_from_be_at,
    u32_to_be_extend,
};
use crate::chunk_type::ChunkType;
use crate::crc::{crc32, crc32_of};
use crate::error::PngError;
use crate::text::bytes_as_text;
use vstd::utf8::{decode_utf8, valid_utf8};

verus! {

/// The mathematical content of a chunk: what its fields hold, free of any
/// representation choice.
#[verifier::ext_equal]
pub struct ChunkModel {
    pub length: u32,
    pub chunk_type: Seq<u8>,
    pub data: Seq<u8>,
    pub crc: u32,
}

impl ChunkModel {
    /// A well-formed chunk: 4 type bytes, the length field counting the data
    /// bytes, and the CRC-32 of type and data stored in the crc field.
    pub open spec fn wf(self) -> bool {
        &&& self.chunk_type.len() == 4
        &&& self.data.len() == self.length
        &&& self.crc == crc32_of(self.chunk_type + self.data)
    }

    /// The chunk's wire form: big-endian length, type, data, big-endian crc.
    pub open spec fn serialized(self) -> Seq<u8> {
        spec_u32_to_be_bytes(self.length) + self.chunk_type + self.data + spec_u32_to_be_bytes(
            self.crc,
        )
    }
}

/// A serialized chunk occupies exactly 12 bytes of framing plus its data.
pub proof fn lemma_serialized_len(m: ChunkModel)
    ensures
        m.serialized().len() == 8 + m.chunk_type.len() + m.data.len(),
        m.wf() ==> m.serialized().len() == 12 + m.length,
{
}

/// What parsing a buffer yields: the chunk recorded at its front, or the
/// error that aborts the parse. The buffer is truncated when it ends before
/// the record it announces is complete; the CRC stored in the record must
/// match the CRC-32 recomputed over the type and data bytes.
pub open spec fn spec_parse_chunk(b: Seq<u8>) -> Result<ChunkModel, PngError> {
    if b.len() < 4 {
        Err(PngError::Truncated)
    } else {
        let length = spec_u32_from_be_bytes(b.subrange(0, 4));
        if b.len() < 12 + length {
            Err(PngError::Truncated)
        } else {
            let chunk_type = b.subrange(4, 8);
            let data = b.subrange(8, 8 + length);
            let crc = spec_u32_from_be_bytes(b.subrange(8 + length, 12 + length));
            if crc != crc32_of(chunk_type + data) {
                Err(PngError::CrcMismatch)
            } else {
                Ok(ChunkModel { length, chunk_type, data, crc })
            }
        }
    }
}

/// A serialized well-formed chunk parses back to itself, whatever bytes
/// follow the record: parsing reads exactly the bytes the chunk wrote.
pub proof fn lemma_chunk_parse_serialized(m: ChunkModel, rest: Seq<u8>)
    requires
        m.wf(),
    ensures
        spec_parse_chunk(m.serialized() + rest) == Ok::<ChunkModel, PngError>(m),
{
    let b = m.serialized() + rest;
    lemma_u32_be_bytes_roundtrip(m.length);
    lemma_u32_be_bytes_roundtrip(m.crc);
    assert(b.subrange(0, 4) =~= spec_u32_to_be_bytes(m.length));
    assert(b.subrange(4, 8) =~= m.chunk_type);
    assert(b.subrange(8, 8 + m.length) =~= m.data);
    assert(b.subrange(8 + m.length as int, 12 + m.length) =~= spec_u32_to_be_bytes(m.crc));
    assert(spec_parse_chunk(b)->Ok_0 =~= m);
}

/// Round trip: a chunk's serialization parses back to exactly that chunk.
pub proof fn lemma_chunk_round_trip(m: ChunkModel)
    requires
        m.wf(),
    ensures
        spec_parse_chunk(m.serialized()) == Ok::<ChunkModel, PngError>(m),
{
    lemma_chunk_parse_serialized(m, Seq::empty());
    assert(m.serialized() + Seq::empty() =~= m.serialized());
}

/// A length-prefixed, CRC-protected record of a PNG file. Immutable once
/// constructed: mutation means replacing a chunk, not editing it in place.
#[derive(Debug, Clone, PartialEq, Eq)]
pub struct Chunk {
    pub data_length: u32,
    pub chunk_type: ChunkType,
    pub message_bytes: Vec<u8>,
    pub crc: u32,
}

impl View for Chunk {
    type V = ChunkModel;

    open spec fn view(&self) -> ChunkModel {
        ChunkModel {
            length: self.data_length,
            chunk_type: self.chunk_type@,
            data: self.message_bytes@,
            crc: self.crc,
        }
    }
}

impl Chunk {
    /// Builds a chunk from a type and its payload, computing the CRC.
    pub fn new(chunk_type: ChunkType, data: Vec<u8>) -> (r: Chunk)
        requires
            data@.len() <= u32::MAX,
        ensures
            r@ == (ChunkModel {
                length: data@.len() as u32,
                chunk_type: chunk_type@,
                data: data@,
                crc: crc32_of(chunk_type@ + data@),
            }),
            r@.wf(),
    {
        let crc = Chunk::get_crc(&chunk_type, &data);
        Chunk { data_length: data.len() as u32, chunk_type, message_bytes: data, crc }
    }

    /// The CRC-32 over the 4 type bytes followed by the data bytes.
    pub fn get_crc(chunk_type: &ChunkType, data: &Vec<u8>) -> (r: u32)
        ensures
            r == crc32_of(chunk_type@ + data@),
    {
        let mut buf: Vec<u8> = Vec::new();
        let tb = chunk_type.bytes();
        buf.push(tb[0]);
        buf.push(tb[1]);
        buf.push(tb[2]);
        buf.push(tb[3]);
        buf.extend_from_slice(data.as_slice());
        proof {
            assert(buf@ =~= chunk_type@ + data@);
        }
        crc32(buf.as_slice())
    }

    /// The number of data bytes.
    pub fn length(&self) -> (r: u32)
        ensures
            r == self@.length,
    {
        self.data_length
    }

    /// The `ChunkType` of this chunk.
    pub fn chunk_type(&self) -> (r: &ChunkType)
        ensures
            r@ == self@.chunk_type,
    {
        &self.chunk_type
    }

    /// The raw data contained in this chunk.
    pub fn data(&self) -> (r: &[u8])
        ensures
            r@ == self@.data,
    {
        self.message_bytes.as_slice()
    }

    /// The stored CRC.
    pub fn crc(&self) -> (r: u32)
        ensures
            r == self@.crc,
    {
        self.crc
    }

    /// The payload decoded as UTF-8 text, for chunks whose payload is known
    /// to be a text message.
    pub fn data_as_string(&self) -> (r: Result<String, PngError>)
        ensures
            match r {
                Ok(s) => valid_utf8(self@.data) && s@ == decode_utf8(self@.data),
                Err(e) => e == PngError::InvalidUtf8 && !valid_utf8(self@.data),
            },
    {
        let bytes = vstd::slice::slice_to_vec(self.message_bytes.as_slice());
        match bytes_as_text(bytes) {
            Some(s) => Ok(s),
            None => Err(PngError::InvalidUtf8),
        }
    }

    /// The chunk's wire form: length (4 bytes, big-endian), type (4 bytes),
    /// data, CRC (4 bytes, big-endian).
    pub fn as_bytes(&self) -> (r: Vec<u8>)
        ensures
            r@ == self@.serialized(),
    {
        let mut out: Vec<u8> = Vec::new();
        u32_to_be_extend(&mut out, self.data_length);
        let tb = self.chunk_type.bytes();
        out.push(tb[0]);
        out.push(tb[1]);
        out.push(tb[2]);
        out.push(tb[3]);
        out.extend_from_slice(self.message_bytes.as_slice());
        u32_to_be_extend(&mut out, self.crc);
        proof {
            assert(out@ =~= self@.serialized());
        }
        out
    }

    /// Reads the chunk recorded at the front of `bytes`, verifying its CRC.
    /// Trailing bytes after the record are ignored; the caller advances by
    /// the record's size. The type bytes are taken raw: existing files may
    /// hold non-alphabetic type codes.
    pub fn parse(bytes: &[u8]) -> (r: Result<Chunk, PngError>)
        ensures
            match r {
                Ok(c) => spec_parse_chunk(bytes@) == Ok::<ChunkModel, PngError>(c@) && c@.wf(),
                Err(e) => spec_parse_chunk(bytes@) == Err::<ChunkModel, PngError>(e),
            },
    {
        let n = bytes.len();
        if n < 4 {
            return Err(PngError::Truncated);
        }
        let length = u32_from_be_at(bytes, 0);
        if n < 12 || n - 12 < length as usize {
            return Err(PngError::Truncated);
        }
        let b4 = *vstd::slice::slice_index_get(bytes, 4);
        let b5 = *vstd::slice::slice_index_get(bytes, 5);
        let b6 = *vstd::slice::slice_index_get(bytes, 6);
        let b7 = *vstd::slice::slice_index_get(bytes, 7);
        let chunk_type = ChunkType::from_bytes([b4, b5, b6, b7]);
        let data = vstd::slice::slice_to_vec(
            vstd::slice::slice_subrange(bytes, 8, 8 + length as usize),
        );
        let stored_crc = u32_from_be_at(bytes, 8 + length as usize);
        let computed = Chunk::get_crc(&chunk_type, &data);
        proof {
            assert(chunk_type@ =~= bytes@.subrange(4, 8));
            assert(bytes@.subrange(8 + length as int, 12 + length as int) =~= bytes@.subrange(
                8 + length as int,
                8 + length + 4,
            ));
        }
        if stored_crc != computed {
            return Err(PngError::CrcMismatch);
        }
        let c = Chunk { data_length: length, chunk_type, message_bytes: data, crc: stored_crc };
        proof {
            assert(spec_parse_chunk(bytes@)->Ok_0 =~= c@);
        }
        Ok(c)
    }
}

} // verus!
