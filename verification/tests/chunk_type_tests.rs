use png_chunk::chunk_type::ChunkType;
use png_chunk::chunk_type::ChunkTypeError;

#[test]
fn test_chunk_type_from_bytes() {
    let expected: [u8; 4] = [82, 117, 83, 116];
    let actual = ChunkType::from_bytes([82, 117, 83, 116]).unwrap();
    assert_eq!(expected, actual.bytes());
}

#[test]
fn test_chunk_type_from_str() {
    let expected = ChunkType::from_bytes([82, 117, 83, 116]).unwrap();
    let actual = ChunkType::from_str("RuSt").unwrap();
    assert_eq!(expected, actual);
}

#[test]
fn test_chunk_type_is_critical() {
    let chunk_type = ChunkType::from_str("RuSt").unwrap();
    assert!(chunk_type.is_critical());
}

#[test]
fn test_chunk_type_is_not_critical() {
    let chunk_type = ChunkType::from_str("ruSt").unwrap();
    assert!(!chunk_type.is_critical());
}

#[test]
fn test_chunk_type_is_public() {
    let chunk_type = ChunkType::from_str("RUSt").unwrap();
    assert!(chunk_type.is_public());
}

#[test]
fn test_chunk_type_is_not_public() {
    let chunk_type = ChunkType::from_str("RuSt").unwrap();
    assert!(!chunk_type.is_public());
}

#[test]
fn test_chunk_type_is_reserved_bit_valid() {
    let chunk_type = ChunkType::from_str("RuSt").unwrap();
    assert!(chunk_type.is_reserved_bit_valid());
}

#[test]
fn test_chunk_type_is_reserved_bit_invalid() {
    let chunk_type = ChunkType::from_str("Rust").unwrap();
    assert!(!chunk_type.is_reserved_bit_valid());
}

#[test]
fn test_chunk_type_is_safe_to_copy() {
    let chunk_type = ChunkType::from_str("RuSt").unwrap();
    assert!(chunk_type.is_safe_to_copy());
}

#[test]
fn test_chunk_type_is_unsafe_to_copy() {
    let chunk_type = ChunkType::from_str("RuST").unwrap();
    assert!(!chunk_type.is_safe_to_copy());
}

#[test]
fn test_valid_chunk_is_valid() {
    let chunk_type = ChunkType::from_str("RuSt").unwrap();
    assert!(chunk_type.is_valid());
}

#[test]
fn test_invalid_chunk_is_valid() {
    let chunk_type = ChunkType::from_str("Rust").unwrap();
    assert!(!chunk_type.is_valid());

    let chunk_type = ChunkType::from_str("Ru1t");
    assert!(chunk_type.is_err());
}

#[test]
fn test_chunk_type_string() {
    let chunk_type = ChunkType::from_str("RuSt").unwrap();
    assert_eq!(&chunk_type.to_text(), "RuSt");
}

#[test]
fn test_chunk_type_trait_impls() {
    let chunk_type_1: ChunkType = ChunkType::from_bytes([82, 117, 83, 116]).unwrap();
    let chunk_type_2: ChunkType = ChunkType::from_str("RuSt").unwrap();
    let _chunk_string = format!("{:?}", chunk_type_1);
    let _are_chunks_equal = chunk_type_1 == chunk_type_2;
}

#[test]
fn test_property_bit_mapping_rust_mixed_case() {
    // Type text "RuSt": bytes 0x52, 0x75, 0x53, 0x74.
    let tag = ChunkType::from_str("RuSt").unwrap();
    assert_eq!(tag.bytes(), [0x52, 0x75, 0x53, 0x74]);
    assert!(tag.is_critical());
    assert!(!tag.is_public());
    assert!(tag.is_reserved_bit_valid());
    assert!(tag.is_safe_to_copy());
    assert!(tag.is_valid());

    // Lowercase byte 2 clears the reserved bit and overall validity.
    let tag = ChunkType::from_str("Rust").unwrap();
    assert!(!tag.is_reserved_bit_valid());
    assert!(!tag.is_valid());
}

#[test]
fn test_tag_accepts_exactly_ascii_letters() {
    for b in 0u16..=255u16 {
        let b = b as u8;
        let r = ChunkType::from_bytes([b, b, b, b]);
        let alphabetic = (0x41..=0x5a).contains(&b) || (0x61..=0x7a).contains(&b);
        assert_eq!(r.is_ok(), alphabetic);
        if !alphabetic {
            assert_eq!(r.unwrap_err(), ChunkTypeError::NonAlphabeticCharacters);
        }
    }
}

#[test]
fn test_from_str_checks_alphabetic_before_length() {
    // A string that is both non-4-length and non-alphabetic reports the
    // alphabetic failure, never the length failure.
    assert_eq!(
        ChunkType::from_str("Ru1").unwrap_err(),
        ChunkTypeError::NonAlphabeticCharacters
    );
    assert_eq!(
        ChunkType::from_str("Ru1tX").unwrap_err(),
        ChunkTypeError::NonAlphabeticCharacters
    );
    assert_eq!(
        ChunkType::from_str("RuStX").unwrap_err(),
        ChunkTypeError::InvalidStringLength(5)
    );
    assert_eq!(
        ChunkType::from_str("Ru").unwrap_err(),
        ChunkTypeError::InvalidStringLength(2)
    );
    assert_eq!(
        ChunkType::from_str("").unwrap_err(),
        ChunkTypeError::InvalidStringLength(0)
    );
}
