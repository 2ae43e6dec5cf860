use pngsec::chunk::Chunk;
use pngsec::chunk_type::ChunkType;
use pngsec::commands;
use pngsec::error::PngError;
use pngsec::png::Png;

fn chunk_of(type_text: &str, data: &[u8]) -> Chunk {
    Chunk::new(ChunkType::from_text(type_text).unwrap(), data.to_vec())
}

fn minimal_png() -> Png {
    Png::from_chunks(vec![
        chunk_of("IHDR", &[1, 2, 3]),
        chunk_of("IDAT", &[9, 8, 7, 6]),
        chunk_of("IEND", &[]),
    ])
}

#[test]
fn test_chunk_round_trip() {
    let chunk = chunk_of("ruSt", b"any byte data");
    let parsed = Chunk::parse(&chunk.as_bytes()).unwrap();
    assert_eq!(parsed, chunk);
}

#[test]
fn test_checksum_sensitivity() {
    // Flipping any single bit in the type or data region must make the
    // stored CRC disagree with the recomputed one.
    let chunk = chunk_of("ruSt", b"payload");
    let serialized = chunk.as_bytes();
    let data_end = serialized.len() - 4;
    for byte_idx in 4..data_end {
        for bit in 0..8 {
            let mut corrupted = serialized.clone();
            corrupted[byte_idx] ^= 1 << bit;
            assert_eq!(Chunk::parse(&corrupted), Err(PngError::CrcMismatch));
        }
    }
}

#[test]
fn test_classification_table() {
    // type text -> critical, public, reserved valid, safe to copy, valid.
    // Safe-to-copy reads bit 5 of byte 3 alone, so "Rust" (lowercase t) is
    // safe to copy — and therefore valid, since the combined check
    // deliberately omits the reserved bit.
    let table: [(&str, bool, bool, bool, bool, bool); 5] = [
        ("RuSt", true, false, true, true, true),
        ("ruSt", false, false, true, true, true),
        ("RUSt", true, true, true, true, true),
        ("Rust", true, false, false, true, true),
        ("RuST", true, false, true, false, false),
    ];
    for (text, critical, public, reserved_valid, safe_to_copy, valid) in table {
        let t = ChunkType::from_text(text).unwrap();
        assert_eq!(t.is_critical(), critical);
        assert_eq!(t.is_public(), public);
        assert_eq!(t.is_reserved_bit_valid(), reserved_valid);
        assert_eq!(t.is_safe_to_copy(), safe_to_copy);
        assert_eq!(t.is_valid(), valid);
    }
}

#[test]
fn test_validity() {
    assert!(ChunkType::from_text("RuSt").unwrap().is_valid());
    // Documented behaviour: validity omits the reserved bit, so "Rust"
    // (safe to copy, all alphabetic, reserved bit invalid) is valid, while
    // "RuST" (uppercase last byte, so not safe to copy) is not.
    assert!(ChunkType::from_text("Rust").unwrap().is_valid());
    assert!(!ChunkType::from_text("RuST").unwrap().is_valid());
    assert_eq!(ChunkType::from_text("Ru1t"), Err(PngError::NonAlphabetic));
}

#[test]
fn test_append_then_find() {
    let mut png = minimal_png();
    let c = chunk_of("ruSt", b"hidden");
    png.append_chunk(c.clone());
    let found = png.chunk_by_type(&c.chunk_type().to_text()).unwrap();
    assert_eq!(found, &c);
}

#[test]
fn test_remove_then_find() {
    let mut png = minimal_png();
    let c = chunk_of("ruSt", b"hidden");
    png.append_chunk(c.clone());
    let before = png.as_bytes().len();
    let removed = png.remove_chunk("ruSt").unwrap();
    assert_eq!(removed, c);
    assert!(png.chunk_by_type("ruSt").is_none());
    let after = png.as_bytes().len();
    assert_eq!(after, before - (12 + c.data().len()));
}

#[test]
fn test_container_round_trip() {
    let png = minimal_png();
    let bytes = png.as_bytes();
    let reparsed = Png::parse(&bytes).unwrap();
    assert_eq!(reparsed.chunks(), png.chunks());
    assert_eq!(reparsed.as_bytes(), bytes);
}

#[test]
fn test_end_to_end_scenario() {
    let original = minimal_png().as_bytes();

    let encoded = commands::encode(&original, "ruSt", "hello").unwrap();
    let encoded_png = Png::parse(&encoded).unwrap();
    assert_eq!(encoded_png.chunks().len(), 4);

    let message = commands::decode(&encoded, "ruSt").unwrap();
    assert_eq!(message, Some(String::from("hello")));

    let restored = commands::remove(&encoded, "ruSt").unwrap();
    assert_eq!(restored, original);
    let restored_png = Png::parse(&restored).unwrap();
    assert_eq!(restored_png.chunks().len(), 3);
}

#[test]
fn test_bad_signature() {
    let mut bytes = minimal_png().as_bytes();
    bytes[0] = 0x88;
    assert_eq!(Png::parse(&bytes), Err(PngError::BadSignature));
    assert_eq!(Png::parse(&bytes[0..7]), Err(PngError::BadSignature));
}

#[test]
fn test_truncated_chunk() {
    let chunk = chunk_of("ruSt", b"payload");
    let serialized = chunk.as_bytes();
    for cut in 1..serialized.len() {
        assert_eq!(
            Chunk::parse(&serialized[0..cut]),
            Err(PngError::Truncated)
        );
    }
    let mut container = minimal_png().as_bytes();
    container.pop();
    assert_eq!(Png::parse(&container), Err(PngError::Truncated));
}

#[test]
fn test_remove_absent_type() {
    let mut png = minimal_png();
    assert_eq!(png.remove_chunk("ruSt"), Err(PngError::ChunkTypeAbsent));
    let bytes = png.as_bytes();
    assert_eq!(commands::remove(&bytes, "ruSt"), Err(PngError::ChunkTypeAbsent));
    assert_eq!(commands::decode(&bytes, "ruSt"), Ok(None));
}

#[test]
fn test_invalid_utf8_data() {
    let chunk = chunk_of("ruSt", &[0xff, 0xfe, 0x00]);
    assert_eq!(chunk.data_as_string(), Err(PngError::InvalidUtf8));
    let mut png = minimal_png();
    png.append_chunk(chunk);
    let bytes = png.as_bytes();
    assert_eq!(commands::decode(&bytes, "ruSt"), Err(PngError::InvalidUtf8));
}

#[test]
fn test_non_alphabetic_encode_type() {
    let bytes = minimal_png().as_bytes();
    assert_eq!(
        commands::encode(&bytes, "ru1t", "hello"),
        Err(PngError::NonAlphabetic)
    );
    assert_eq!(
        commands::encode(&bytes, "ruSta", "hello"),
        Err(PngError::NonAlphabetic)
    );
}

#[test]
fn test_raw_type_bytes_tolerated() {
    // Parsing must tolerate non-alphabetic type codes found in real files.
    let raw = ChunkType::from_bytes([0x80, 0x21, 0x7e, 0x01]);
    assert_eq!(raw.to_text(), String::new());
    let chunk = Chunk::new(raw, vec![5, 5, 5]);
    let reparsed = Chunk::parse(&chunk.as_bytes()).unwrap();
    assert_eq!(reparsed, chunk);
}
