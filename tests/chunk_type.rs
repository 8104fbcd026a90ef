use pngme::chunk_type::ChunkType;
use pngme::error::PngError;
use std::convert::TryFrom;
use std::str::FromStr;

#[test]
pub fn test_chunk_type_from_bytes() {
    let expected = [82, 117, 83, 116];
    let actual = ChunkType::try_from([82, 117, 83, 116]).unwrap();

    assert_eq!(expected, actual.bytes());
}

#[test]
pub fn test_chunk_type_from_str() {
    let expected = ChunkType::try_from([82, 117, 83, 116]).unwrap();
    let actual = ChunkType::from_str("RuSt").unwrap();
    assert_eq!(expected, actual);
}

#[test]
pub fn test_chunk_type_is_critical() {
    let chunk = ChunkType::from_str("RuSt").unwrap();
    assert!(chunk.is_critical());
}

#[test]
pub fn test_chunk_type_is_not_critical() {
    let chunk = ChunkType::from_str("ruSt").unwrap();
    assert!(!chunk.is_critical());
}

#[test]
pub fn test_chunk_type_is_public() {
    let chunk = ChunkType::from_str("RUSt").unwrap();
    assert!(chunk.is_public());
}

#[test]
pub fn test_chunk_type_is_not_public() {
    let chunk = ChunkType::from_str("RuSt").unwrap();
    assert!(!chunk.is_public());
}

#[test]
pub fn test_chunk_type_is_reserved_bit_valid() {
    let chunk = ChunkType::from_str("RuSt").unwrap();
    assert!(chunk.is_reserved_bit_valid());
}

#[test]
pub fn test_chunk_type_is_reserved_bit_invalid() {
    let chunk = ChunkType::from_str("Rust").unwrap();
    assert!(!chunk.is_reserved_bit_valid());
}

#[test]
pub fn test_chunk_type_is_safe_to_copy() {
    let chunk = ChunkType::from_str("RuSt").unwrap();
    assert!(chunk.is_safe_to_copy());
}

#[test]
pub fn test_chunk_type_is_unsafe_to_copy() {
    let chunk = ChunkType::from_str("RuST").unwrap();
    assert!(!chunk.is_safe_to_copy());
}

#[test]
pub fn test_valid_chunk_is_valid() {
    let chunk = ChunkType::from_str("RuSt").unwrap();
    assert!(chunk.is_valid());
}

#[test]
pub fn test_invalid_chunk_is_valid() {
    let chunk = ChunkType::from_str("Rust").unwrap();
    assert!(!chunk.is_valid());

    let chunk = ChunkType::from_str("Ru1t");
    assert!(chunk.is_err());
}

#[test]
pub fn test_chunk_type_string() {
    let chunk = ChunkType::from_str("RuSt").unwrap();
    assert_eq!(&chunk.to_string(), "RuSt");
}

#[test]
pub fn test_chunk_type_trait_impls() {
    let chunk_type_1: ChunkType = TryFrom::try_from([82, 117, 83, 116]).unwrap();
    let chunk_type_2: ChunkType = FromStr::from_str("RuSt").unwrap();
    let _chunk_string = chunk_type_1.to_string();
    let _are_chunks_equal = chunk_type_1 == chunk_type_2;
}

#[test]
fn strict_bytes_refuse_reserved_bit() {
    assert_eq!(ChunkType::try_from(*b"RuSt").map(|t| t.bytes()), Ok(*b"RuSt"));
    assert_eq!(ChunkType::try_from(*b"Rust"), Err(PngError::InvalidChunkType));
}

#[test]
fn strict_bytes_refuse_non_letters() {
    assert_eq!(ChunkType::try_from(*b"Ru1t"), Err(PngError::InvalidChunkType));
    assert_eq!(ChunkType::try_from([82, 117, 83, 200]), Err(PngError::InvalidChunkType));
    assert_eq!(ChunkType::try_from(*b"Ru@t"), Err(PngError::InvalidChunkType));
}

#[test]
fn text_needs_four_letters() {
    assert_eq!(ChunkType::from_str("RuS"), Err(PngError::InvalidChunkType));
    assert_eq!(ChunkType::from_str("RuStX"), Err(PngError::InvalidChunkType));
    assert_eq!(ChunkType::from_str(""), Err(PngError::InvalidChunkType));
    assert_eq!(ChunkType::from_str("Ruéq"), Err(PngError::InvalidChunkType));
    assert!(ChunkType::from_str("Rust").is_ok());
}

#[test]
fn has_text_compares_labels() {
    let t = ChunkType::from_str("RuSt").unwrap();
    assert!(t.has_text("RuSt"));
    assert!(!t.has_text("Rust"));
    assert!(!t.has_text("RuSt "));
}
