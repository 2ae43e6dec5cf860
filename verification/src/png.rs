//! The PNG container: an ordered sequence of chunks behind the fixed 8-byte
//! signature.
//!
//! Parsing verifies the signature and then reads chunk records until the
//! buffer is exhausted; any chunk-level failure aborts the whole parse, since
//! a corrupted framing byte invalidates all subsequent offsets. Chunk order
//! is significant and preserved across parse, mutate and serialize cycles,
//! except for the single chunk explicitly appended or removed. Lookup and
//! removal resolve to the first chunk whose type bytes equal the query.

use vstd::prelude::*;

use crate::byteorder::spec_u32_from_be_bytes;
use crate::chunk::{
    lemma_chunk_parse_serialized, lemma_serialized_len, spec_parse_chunk, Chunk, ChunkModel,
};
use crate::chunk_type::ChunkType;
use crate::error::PngError;
use vstd::string::StringSliceAdditionalSpecFns;

verus! {

/// The fixed 8-byte magic sequence identifying a PNG byte stream.
pub open spec fn spec_signature() -> Seq<u8> {
    seq![0x89u8, 0x50u8, 0x4eu8, 0x47u8, 0x0du8, 0x0au8, 0x1au8, 0x0au8]
}

/// The models of a sequence of chunks.
pub open spec fn models_of(chunks: Seq<Chunk>) -> Seq<ChunkModel> {
    chunks.map_values(|c: Chunk| c@)
}

/// The wire form of a sequence of chunks: each chunk's record, in order.
pub open spec fn spec_serialize_chunks(chunks: Seq<ChunkModel>) -> Seq<u8>
    decreases chunks.len(),
{
    if chunks.len() == 0 {
        Seq::empty()
    } else {
        chunks[0].serialized() + spec_serialize_chunks(chunks.drop_first())
    }
}

/// The wire form of a whole container: signature, then every chunk.
pub open spec fn spec_serialize_png(chunks: Seq<ChunkModel>) -> Seq<u8> {
    spec_signature() + spec_serialize_chunks(chunks)
}

/// What parsing a stream of chunk records yields: the chunks in encountered
/// order once the buffer is exhausted, or the first record's error.
pub open spec fn spec_parse_chunks(b: Seq<u8>) -> Result<Seq<ChunkModel>, PngError>
    decreases b.len(),
{
    if b.len() == 0 {
        Ok(Seq::empty())
    } else if b.len() < 4 {
        Err(PngError::Truncated)
    } else {
        let length = spec_u32_from_be_bytes(b.subrange(0, 4));
        if b.len() < 12 + length {
            Err(PngError::Truncated)
        } else {
            match spec_parse_chunk(b) {
                Err(e) => Err(e),
                Ok(m) => match spec_parse_chunks(b.skip(12 + length)) {
                    Err(e) => Err(e),
                    Ok(rest) => Ok(seq![m] + rest),
                },
            }
        }
    }
}

/// What parsing a full byte stream yields: the signature must open the
/// stream, then its chunk records run to the end.
pub open spec fn spec_parse_png(b: Seq<u8>) -> Result<Seq<ChunkModel>, PngError> {
    if b.len() < 8 || b.subrange(0, 8) != spec_signature() {
        Err(PngError::BadSignature)
    } else {
        spec_parse_chunks(b.skip(8))
    }
}

/// The first chunk whose type bytes equal `t`, if any.
pub open spec fn spec_find(chunks: Seq<ChunkModel>, t: Seq<u8>) -> Option<ChunkModel>
    decreases chunks.len(),
{
    if chunks.len() == 0 {
        None
    } else if chunks[0].chunk_type == t {
        Some(chunks[0])
    } else {
        spec_find(chunks.drop_first(), t)
    }
}

/// The first chunk whose type bytes equal `t`, together with the sequence
/// it leaves behind, if any. Later chunks of the same type stay untouched.
pub open spec fn spec_remove(chunks: Seq<ChunkModel>, t: Seq<u8>) -> Option<
    (ChunkModel, Seq<ChunkModel>),
>
    decreases chunks.len(),
{
    if chunks.len() == 0 {
        None
    } else if chunks[0].chunk_type == t {
        Some((chunks[0], chunks.drop_first()))
    } else {
        match spec_remove(chunks.drop_first(), t) {
            None => None,
            Some((m, rest)) => Some((m, seq![chunks[0]] + rest)),
        }
    }
}

/// How many chunks have type `t`.
pub open spec fn count_matching(chunks: Seq<ChunkModel>, t: Seq<u8>) -> nat
    decreases chunks.len(),
{
    if chunks.len() == 0 {
        0
    } else {
        (if chunks[0].chunk_type == t {
            1nat
        } else {
            0nat
        }) + count_matching(chunks.drop_first(), t)
    }
}

/// Parsing one step: on a non-empty buffer, the chunk stream is the record
/// at the front followed by the stream parsed from the remaining bytes.
pub proof fn lemma_parse_chunks_unfold(b: Seq<u8>)
    requires
        b.len() > 0,
    ensures
        spec_parse_chunks(b) == (match spec_parse_chunk(b) {
            Err(e) => Err::<Seq<ChunkModel>, PngError>(e),
            Ok(m) => match spec_parse_chunks(b.skip(12 + m.length)) {
                Err(e) => Err(e),
                Ok(rest) => Ok(seq![m] + rest),
            },
        }),
{
}

/// Serializing one more chunk appends exactly its record.
pub proof fn lemma_serialize_chunks_snoc(chunks: Seq<ChunkModel>, m: ChunkModel)
    ensures
        spec_serialize_chunks(chunks.push(m)) == spec_serialize_chunks(chunks) + m.serialized(),
    decreases chunks.len(),
{
    if chunks.len() == 0 {
        assert(chunks.push(m)[0] == m);
        assert(chunks.push(m).drop_first() =~= Seq::<ChunkModel>::empty());
        assert(spec_serialize_chunks(Seq::<ChunkModel>::empty()) =~= Seq::<u8>::empty());
        assert(chunks =~= Seq::<ChunkModel>::empty());
        assert(spec_serialize_chunks(chunks.push(m)) =~= spec_serialize_chunks(chunks)
            + m.serialized());
    } else {
        assert(chunks.push(m)[0] == chunks[0]);
        assert(chunks.push(m).drop_first() =~= chunks.drop_first().push(m));
        lemma_serialize_chunks_snoc(chunks.drop_first(), m);
        assert(spec_serialize_chunks(chunks.push(m)) =~= spec_serialize_chunks(chunks)
            + m.serialized());
    }
}

/// A serialized stream of well-formed chunks parses back to those chunks.
pub proof fn lemma_parse_serialize_chunks(chunks: Seq<ChunkModel>)
    requires
        forall|i: int| 0 <= i < chunks.len() ==> (#[trigger] chunks[i]).wf(),
    ensures
        spec_parse_chunks(spec_serialize_chunks(chunks)) == Ok::<Seq<ChunkModel>, PngError>(
            chunks,
        ),
    decreases chunks.len(),
{
    if chunks.len() == 0 {
        assert(chunks =~= Seq::<ChunkModel>::empty());
        assert(spec_serialize_chunks(chunks).len() == 0);
        assert(spec_parse_chunks(spec_serialize_chunks(chunks)) == Ok::<
            Seq<ChunkModel>,
            PngError,
        >(Seq::empty()));
    } else {
        let m = chunks[0];
        let rest = chunks.drop_first();
        let tail = spec_serialize_chunks(rest);
        let b = m.serialized() + tail;
        assert(spec_serialize_chunks(chunks) == b);
        lemma_serialized_len(m);
        lemma_chunk_parse_serialized(m, tail);
        assert(spec_parse_chunk(b) == Ok::<ChunkModel, PngError>(m));
        lemma_parse_chunks_unfold(b);
        assert(b.skip(12 + m.length) =~= tail);
        assert(forall|i: int| 0 <= i < rest.len() ==> (#[trigger] rest[i]).wf()) by {
            assert(forall|i: int| 0 <= i < rest.len() ==> rest[i] == chunks[i + 1]);
        }
        lemma_parse_serialize_chunks(rest);
        assert(spec_parse_chunks(tail) == Ok::<Seq<ChunkModel>, PngError>(rest));
        assert(spec_parse_chunks(b) == Ok::<Seq<ChunkModel>, PngError>(seq![m] + rest));
        assert(seq![m] + rest =~= chunks);
    }
}

/// Container round trip: serializing any sequence of well-formed chunks and
/// parsing the result yields the same signature and the same chunk sequence.
pub proof fn lemma_png_round_trip(chunks: Seq<ChunkModel>)
    requires
        forall|i: int| 0 <= i < chunks.len() ==> (#[trigger] chunks[i]).wf(),
    ensures
        spec_parse_png(spec_serialize_png(chunks)) == Ok::<Seq<ChunkModel>, PngError>(chunks),
{
    let b = spec_serialize_png(chunks);
    assert(b.subrange(0, 8) =~= spec_signature());
    assert(b.skip(8) =~= spec_serialize_chunks(chunks));
    lemma_parse_serialize_chunks(chunks);
}

/// Every chunk a successful parse yields is well-formed: its length field
/// counts its data and its CRC is the CRC-32 of its type and data.
pub proof fn lemma_parse_chunks_wf(b: Seq<u8>, chunks: Seq<ChunkModel>)
    requires
        spec_parse_chunks(b) == Ok::<Seq<ChunkModel>, PngError>(chunks),
    ensures
        forall|i: int| 0 <= i < chunks.len() ==> (#[trigger] chunks[i]).wf(),
    decreases b.len(),
{
    if b.len() == 0 {
    } else {
        let m = spec_parse_chunk(b)->Ok_0;
        let rest = spec_parse_chunks(b.skip(12 + m.length))->Ok_0;
        lemma_parse_chunks_wf(b.skip(12 + m.length), rest);
        assert(chunks == seq![m] + rest);
        assert(forall|i: int| 0 <= i < chunks.len() ==> (#[trigger] chunks[i]).wf()) by {
            assert(chunks[0] == m);
            assert(forall|i: int| 1 <= i < chunks.len() ==> chunks[i] == rest[i - 1]);
        }
    }
}

/// Container round trip for parsed containers: whatever byte stream a
/// container was successfully parsed from, serializing it and parsing the
/// result yields the identical chunk sequence.
pub proof fn lemma_parsed_png_round_trip(b: Seq<u8>, chunks: Seq<ChunkModel>)
    requires
        spec_parse_png(b) == Ok::<Seq<ChunkModel>, PngError>(chunks),
    ensures
        spec_parse_png(spec_serialize_png(chunks)) == Ok::<Seq<ChunkModel>, PngError>(chunks),
{
    lemma_parse_chunks_wf(b.skip(8), chunks);
    lemma_png_round_trip(chunks);
}

/// Appending a chunk whose type is not yet present, then looking that type
/// up, finds exactly the appended chunk.
pub proof fn lemma_append_find(chunks: Seq<ChunkModel>, m: ChunkModel)
    requires
        spec_find(chunks, m.chunk_type) is None,
    ensures
        spec_find(chunks.push(m), m.chunk_type) == Some(m),
    decreases chunks.len(),
{
    if chunks.len() == 0 {
        assert(chunks.push(m)[0] == m);
    } else {
        assert(chunks.push(m).drop_first() =~= chunks.drop_first().push(m));
        lemma_append_find(chunks.drop_first(), m);
    }
}

/// A type counted zero times is not found.
pub proof fn lemma_count_zero_find_none(chunks: Seq<ChunkModel>, t: Seq<u8>)
    requires
        count_matching(chunks, t) == 0,
    ensures
        spec_find(chunks, t) is None,
    decreases chunks.len(),
{
    if chunks.len() == 0 {
    } else {
        lemma_count_zero_find_none(chunks.drop_first(), t);
    }
}

/// Removing the only chunk of a type leaves a container in which that type
/// is no longer found, and whose serialized form is exactly the removed
/// chunk's record shorter: 12 framing bytes plus its data.
pub proof fn lemma_remove_find(chunks: Seq<ChunkModel>, t: Seq<u8>)
    requires
        count_matching(chunks, t) == 1,
        forall|i: int| 0 <= i < chunks.len() ==> (#[trigger] chunks[i]).wf(),
    ensures
        spec_remove(chunks, t) is Some,
        ({
            let (m, rest) = spec_remove(chunks, t)->Some_0;
            &&& spec_find(rest, t) is None
            &&& spec_serialize_png(chunks).len() == spec_serialize_png(rest).len() + 12
                + m.data.len()
        }),
    decreases chunks.len(),
{
    let head = chunks[0];
    if head.chunk_type == t {
        let rest = chunks.drop_first();
        assert(count_matching(rest, t) == 0);
        lemma_count_zero_find_none(rest, t);
        lemma_serialized_len(head);
    } else {
        let rest0 = chunks.drop_first();
        assert(forall|i: int| 0 <= i < rest0.len() ==> (#[trigger] rest0[i]).wf()) by {
            assert(forall|i: int| 0 <= i < rest0.len() ==> rest0[i] == chunks[i + 1]);
        }
        lemma_remove_find(rest0, t);
        let (m, rest1) = spec_remove(rest0, t)->Some_0;
        let rest = seq![head] + rest1;
        assert(spec_remove(chunks, t) == Some((m, rest)));
        assert(spec_find(rest, t) is None) by {
            assert(rest.drop_first() =~= rest1);
        }
        assert(rest.drop_first() =~= rest1);
        assert(spec_serialize_chunks(rest) == head.serialized() + spec_serialize_chunks(rest1));
        lemma_serialized_len(head);
        lemma_serialized_len(m);
    }
}

/// True exactly when the type code's bytes equal the 4 query bytes.
fn type_matches(t: &ChunkType, q: &[u8]) -> (r: bool)
    ensures
        r == (t@ == q@),
{
    if q.len() != 4 {
        return false;
    }
    let tb = t.bytes();
    let r = tb[0] == *vstd::slice::slice_index_get(q, 0) && tb[1] == *vstd::slice::slice_index_get(
        q,
        1,
    ) && tb[2] == *vstd::slice::slice_index_get(q, 2) && tb[3] == *vstd::slice::slice_index_get(
        q,
        3,
    );
    proof {
        if r {
            assert(t@ =~= q@);
        }
    }
    r
}

/// An ordered sequence of chunks behind the fixed PNG signature.
#[derive(Debug, Clone, PartialEq, Eq)]
pub struct Png {
    pub chunks: Vec<Chunk>,
}

impl View for Png {
    type V = Seq<ChunkModel>;

    open spec fn view(&self) -> Seq<ChunkModel> {
        models_of(self.chunks@)
    }
}

impl Png {
    /// A container holding the given chunks, in order.
    pub fn from_chunks(chunks: Vec<Chunk>) -> (r: Png)
        ensures
            r@ == models_of(chunks@),
    {
        Png { chunks }
    }

    /// The fixed PNG signature as bytes.
    pub fn signature() -> (r: Vec<u8>)
        ensures
            r@ == spec_signature(),
    {
        let mut v: Vec<u8> = Vec::new();
        v.push(0x89);
        v.push(0x50);
        v.push(0x4e);
        v.push(0x47);
        v.push(0x0d);
        v.push(0x0a);
        v.push(0x1a);
        v.push(0x0a);
        proof {
            assert(v@ =~= spec_signature());
        }
        v
    }

    /// Parses a full PNG byte stream: the signature, then chunk records
    /// until the buffer is exhausted. Partial containers are never
    /// returned: any failure rejects the whole stream.
    pub fn parse(bytes: &[u8]) -> (r: Result<Png, PngError>)
        ensures
            match r {
                Ok(p) => spec_parse_png(bytes@) == Ok::<Seq<ChunkModel>, PngError>(p@),
                Err(e) => spec_parse_png(bytes@) == Err::<Seq<ChunkModel>, PngError>(e),
            },
    {
        let n = bytes.len();
        if n < 8 {
            return Err(PngError::BadSignature);
        }
        let sig_ok = *vstd::slice::slice_index_get(bytes, 0) == 0x89
            && *vstd::slice::slice_index_get(bytes, 1) == 0x50 && *vstd::slice::slice_index_get(
            bytes,
            2,
        ) == 0x4e && *vstd::slice::slice_index_get(bytes, 3) == 0x47
            && *vstd::slice::slice_index_get(bytes, 4) == 0x0d && *vstd::slice::slice_index_get(
            bytes,
            5,
        ) == 0x0a && *vstd::slice::slice_index_get(bytes, 6) == 0x1a
            && *vstd::slice::slice_index_get(bytes, 7) == 0x0a;
        proof {
            if sig_ok {
                assert(bytes@.subrange(0, 8) =~= spec_signature());
            } else {
                assert(bytes@.subrange(0, 8) != spec_signature()) by {
                    let s = bytes@.subrange(0, 8);
                    if s == spec_signature() {
                        assert(s[0] == 0x89 && s[1] == 0x50 && s[2] == 0x4e && s[3] == 0x47
                            && s[4] == 0x0d && s[5] == 0x0a && s[6] == 0x1a && s[7] == 0x0a);
                    }
                }
            }
        }
        if !sig_ok {
            return Err(PngError::BadSignature);
        }
        let mut chunks: Vec<Chunk> = Vec::new();
        let mut i: usize = 8;
        while i < n
            invariant
                8 <= i <= n,
                n == bytes@.len(),
                spec_parse_png(bytes@) == spec_parse_chunks(bytes@.skip(8)),
                spec_parse_chunks(bytes@.skip(8)) == (match spec_parse_chunks(
                    bytes@.skip(i as int),
                ) {
                    Ok(rest) => Ok::<Seq<ChunkModel>, PngError>(models_of(chunks@) + rest),
                    Err(e) => Err::<Seq<ChunkModel>, PngError>(e),
                }),
            decreases n - i,
        {
            let tail = vstd::slice::slice_subrange(bytes, i, n);
            proof {
                assert(tail@ =~= bytes@.skip(i as int));
            }
            match Chunk::parse(tail) {
                Err(e) => {
                    proof {
                        assert(bytes@.skip(i as int).len() > 0);
                        lemma_parse_chunks_unfold(bytes@.skip(i as int));
                    }
                    return Err(e);
                },
                Ok(c) => {
                    proof {
                        lemma_parse_chunks_unfold(bytes@.skip(i as int));
                        lemma_serialized_len(c@);
                        assert(bytes@.skip(i as int).len() >= 12 + c@.length);
                        assert(bytes@.skip(i as int).skip(12 + c@.length) =~= bytes@.skip(
                            i + 12 + c@.length,
                        ));
                    }
                    let consumed = 12 + c.length() as usize;
                    proof {
                        assert(models_of(chunks@.push(c)) =~= models_of(chunks@) + seq![c@]);
                        assert(forall|rest: Seq<ChunkModel>|
                            (models_of(chunks@) + (seq![c@] + rest)) =~= ((models_of(chunks@)
                                + seq![c@]) + rest));
                    }
                    chunks.push(c);
                    i = i + consumed;
                },
            }
        }
        proof {
            assert(bytes@.skip(n as int) =~= Seq::<u8>::empty());
            assert(models_of(chunks@) + Seq::<ChunkModel>::empty() =~= models_of(chunks@));
        }
        Ok(Png { chunks })
    }

    /// Appends a chunk at the end of the sequence. No PNG structural rule
    /// (such as preceding the end-marker chunk) is enforced here; that
    /// policy belongs to the caller.
    pub fn append_chunk(&mut self, chunk: Chunk)
        ensures
            final(self)@ == old(self)@.push(chunk@),
    {
        self.chunks.push(chunk);
        proof {
            assert(models_of(self.chunks@) =~= models_of(old(self).chunks@).push(chunk@));
        }
    }

    /// The first chunk whose type bytes equal the query text's bytes, or
    /// nothing: absence is a normal outcome for lookup.
    pub fn chunk_by_type(&self, chunk_type: &str) -> (r: Option<&Chunk>)
        ensures
            match r {
                Some(c) => spec_find(self@, chunk_type.spec_bytes()) == Some(c@),
                None => spec_find(self@, chunk_type.spec_bytes()) is None,
            },
    {
        let q = chunk_type.as_bytes();
        let n = self.chunks.len();
        let mut i: usize = 0;
        proof {
            assert(self@.skip(0) =~= self@);
        }
        while i < n
            invariant
                i <= n,
                n == self.chunks@.len(),
                q@ == chunk_type.spec_bytes(),
                spec_find(self@, q@) == spec_find(self@.skip(i as int), q@),
            decreases n - i,
        {
            let c = &self.chunks[i];
            let hit = type_matches(&c.chunk_type, q);
            proof {
                assert(self@.skip(i as int)[0] == self@[i as int]);
                assert(self@.skip(i as int).drop_first() =~= self@.skip(i + 1));
            }
            if hit {
                return Some(c);
            }
            i = i + 1;
        }
        proof {
            assert(self@.skip(n as int) =~= Seq::<ChunkModel>::empty());
        }
        None
    }

    /// Removes and returns the first chunk whose type bytes equal the query
    /// text's bytes; later chunks of the same type are left untouched.
    /// Fails when no chunk of that type is present.
    pub fn remove_chunk(&mut self, chunk_type: &str) -> (r: Result<Chunk, PngError>)
        ensures
            match r {
                Ok(c) => spec_remove(old(self)@, chunk_type.spec_bytes()) == Some(
                    (c@, final(self)@),
                ),
                Err(e) => {
                    &&& e == PngError::ChunkTypeAbsent
                    &&& spec_remove(old(self)@, chunk_type.spec_bytes()) is None
                    &&& final(self)@ == old(self)@
                },
            },
    {
        let q = chunk_type.as_bytes();
        let n = self.chunks.len();
        let mut i: usize = 0;
        while i < n
            invariant
                i <= n,
                n == self.chunks@.len(),
                q@ == chunk_type.spec_bytes(),
                self.chunks@ == old(self).chunks@,
                forall|j: int| 0 <= j < i ==> (#[trigger] self@[j]).chunk_type != q@,
            decreases n - i,
        {
            let c = &self.chunks[i];
            let hit = type_matches(&c.chunk_type, q);
            if hit {
                proof {
                    lemma_spec_remove_at(self@, q@, i as int);
                }
                let removed = self.chunks.remove(i);
                proof {
                    assert(models_of(self.chunks@) =~= models_of(old(self).chunks@).remove(
                        i as int,
                    ));
                    assert(spec_remove(old(self)@, q@) == Some((removed@, final(self)@)));
                }
                return Ok(removed);
            }
            i = i + 1;
        }
        proof {
            lemma_spec_remove_none(self@, q@);
        }
        Err(PngError::ChunkTypeAbsent)
    }

    /// A read-only view of the chunk sequence.
    pub fn chunks(&self) -> (r: &Vec<Chunk>)
        ensures
            r@ == self.chunks@,
            models_of(r@) == self@,
    {
        &self.chunks
    }

    /// The container's wire form: the signature, then every chunk's record
    /// in the current sequence order.
    pub fn as_bytes(&self) -> (r: Vec<u8>)
        ensures
            r@ == spec_serialize_png(self@),
    {
        let mut out = Png::signature();
        let n = self.chunks.len();
        let mut i: usize = 0;
        while i < n
            invariant
                i <= n,
                n == self.chunks@.len(),
                out@ == spec_signature() + spec_serialize_chunks(self@.take(i as int)),
            decreases n - i,
        {
            let cb = (&self.chunks[i]).as_bytes();
            out.extend_from_slice(cb.as_slice());
            proof {
                lemma_serialize_chunks_snoc(self@.take(i as int), self@[i as int]);
                assert(self@.take(i as int).push(self@[i as int]) =~= self@.take(i + 1));
                assert(out@ =~= spec_signature() + spec_serialize_chunks(self@.take(i + 1)));
            }
            i = i + 1;
        }
        proof {
            assert(self@.take(n as int) =~= self@);
        }
        out
    }
}

/// When the first match sits at index `i`, removal removes exactly that
/// index.
proof fn lemma_spec_remove_at(chunks: Seq<ChunkModel>, t: Seq<u8>, i: int)
    requires
        0 <= i < chunks.len(),
        chunks[i].chunk_type == t,
        forall|j: int| 0 <= j < i ==> (#[trigger] chunks[j]).chunk_type != t,
    ensures
        spec_remove(chunks, t) == Some((chunks[i], chunks.remove(i))),
    decreases i,
{
    if i == 0 {
        assert(chunks.remove(0) =~= chunks.drop_first());
    } else {
        let rest0 = chunks.drop_first();
        assert(forall|j: int| 0 <= j < i - 1 ==> (#[trigger] rest0[j]).chunk_type != t) by {
            assert(forall|j: int| 0 <= j < i - 1 ==> rest0[j] == chunks[j + 1]);
        }
        lemma_spec_remove_at(rest0, t, i - 1);
        assert(seq![chunks[0]] + rest0.remove(i - 1) =~= chunks.remove(i));
    }
}

/// When no chunk matches, removal finds nothing.
proof fn lemma_spec_remove_none(chunks: Seq<ChunkModel>, t: Seq<u8>)
    requires
        forall|j: int| 0 <= j < chunks.len() ==> (#[trigger] chunks[j]).chunk_type != t,
    ensures
        spec_remove(chunks, t) is None,
    decreases chunks.len(),
{
    if chunks.len() == 0 {
    } else {
        let rest0 = chunks.drop_first();
        assert(forall|j: int| 0 <= j < rest0.len() ==> (#[trigger] rest0[j]).chunk_type != t) by {
            assert(forall|j: int| 0 <= j < rest0.len() ==> rest0[j] == chunks[j + 1]);
        }
        lemma_spec_remove_none(rest0, t);
    }
}

} // verus!
