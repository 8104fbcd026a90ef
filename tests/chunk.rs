use pngme::chunk::Chunk;
use pngme::chunk_type::ChunkType;
use pngme::error::PngError;

fn chunk_bytes(data_length: u32, chunk_type: &[u8], message: &[u8], crc: u32) -> Vec<u8> {
    data_length
        .to_be_bytes()
        .iter()
        .chain(chunk_type.iter())
        .chain(message.iter())
        .chain(crc.to_be_bytes().iter())
        .copied()
        .collect()
}

fn testing_chunk() -> Chunk {
    let data_length: u32 = 42;
    let chunk_type = "RuSt".as_bytes();
    let message_bytes = "This is where your secret message will be!".as_bytes();
    let crc: u32 = 2882656334;

    let chunk_data: Vec<u8> = chunk_bytes(data_length, chunk_type, message_bytes, crc);

    Chunk::try_from(chunk_data.as_ref()).unwrap()
}

#[test]
fn test_new_chunk() {
    let chunk_type = ChunkType::from_str("RuSt").unwrap();
    let data = "This is where your secret message will be!"
        .as_bytes()
        .to_vec();
    let chunk = Chunk::new(chunk_type, data);
    assert_eq!(chunk.length(), 42);
    assert_eq!(chunk.crc(), 2882656334);
}

#[test]
fn test_chunk_length() {
    let chunk = testing_chunk();
    assert_eq!(chunk.length(), 42);
}

#[test]
fn test_chunk_type() {
    let chunk = testing_chunk();
    assert_eq!(chunk.chunk_type().to_string(), String::from("RuSt"));
}

#[test]
fn test_chunk_string() {
    let chunk = testing_chunk();
    let chunk_string = chunk.data_as_string().unwrap();
    let expected_chunk_string = String::from("This is where your secret message will be!");
    assert_eq!(chunk_string, expected_chunk_string);
}

#[test]
fn test_chunk_crc() {
    let chunk = testing_chunk();
    assert_eq!(chunk.crc(), 2882656334);
}

#[test]
fn test_valid_chunk_from_bytes() {
    let data_length: u32 = 42;
    let chunk_type = "RuSt".as_bytes();
    let message_bytes = "This is where your secret message will be!".as_bytes();
    let crc: u32 = 2882656334;

    let chunk_data: Vec<u8> = chunk_bytes(data_length, chunk_type, message_bytes, crc);

    let chunk = Chunk::try_from(chunk_data.as_ref()).unwrap();

    let chunk_string = chunk.data_as_string().unwrap();
    let expected_chunk_string = String::from("This is where your secret message will be!");

    assert_eq!(chunk.length(), 42);
    assert_eq!(chunk.chunk_type().to_string(), String::from("RuSt"));
    assert_eq!(chunk_string, expected_chunk_string);
    assert_eq!(chunk.crc(), 2882656334);
}

#[test]
fn test_invalid_chunk_from_bytes() {
    let data_length: u32 = 42;
    let chunk_type = "RuSt".as_bytes();
    let message_bytes = "This is where your secret message will be!".as_bytes();
    let crc: u32 = 2882656333;

    let chunk_data: Vec<u8> = chunk_bytes(data_length, chunk_type, message_bytes, crc);

    let chunk = Chunk::try_from(chunk_data.as_ref());

    assert!(chunk.is_err());
}

#[test]
pub fn test_chunk_trait_impls() {
    let data_length: u32 = 42;
    let chunk_type = "RuSt".as_bytes();
    let message_bytes = "This is where your secret message will be!".as_bytes();
    let crc: u32 = 2882656334;

    let chunk_data: Vec<u8> = chunk_bytes(data_length, chunk_type, message_bytes, crc);

    let chunk: Chunk = Chunk::try_from(chunk_data.as_ref()).unwrap();

    let _chunk_string = format!("{:?}", chunk);
}

#[test]
fn crc_mismatch_is_reported() {
    let bytes = chunk_bytes(42, b"RuSt", b"This is where your secret message will be!", 2882656333);
    assert_eq!(Chunk::try_from(bytes.as_ref()).err(), Some(PngError::CrcMismatch));
}

#[test]
fn declared_length_beyond_input_is_too_short() {
    let bytes = chunk_bytes(43, b"RuSt", b"This is where your secret message will be!", 2882656334);
    assert_eq!(Chunk::try_from(bytes.as_ref()).err(), Some(PngError::TooShort));
}

#[test]
fn fewer_than_twelve_bytes_is_too_short() {
    let bytes: Vec<u8> = vec![0, 0, 0, 0, 82, 117, 83, 116, 0, 0, 0];
    assert_eq!(Chunk::try_from(bytes.as_ref()).err(), Some(PngError::TooShort));
    let empty: Vec<u8> = Vec::new();
    assert_eq!(Chunk::try_from(empty.as_ref()).err(), Some(PngError::TooShort));
}

#[test]
fn reserved_bit_in_bytes_is_invalid_type() {
    let bytes = chunk_bytes(0, b"Rust", b"", 0);
    assert_eq!(Chunk::try_from(bytes.as_ref()).err(), Some(PngError::InvalidChunkType));
}

#[test]
fn as_bytes_matches_layout() {
    let chunk = Chunk::new(
        ChunkType::from_str("RuSt").unwrap(),
        b"This is where your secret message will be!".to_vec(),
    );
    let expected = chunk_bytes(42, b"RuSt", b"This is where your secret message will be!", 2882656334);
    assert_eq!(chunk.as_bytes(), expected);
}

#[test]
fn chunk_round_trip() {
    let chunk = Chunk::new(ChunkType::from_str("ruSt").unwrap(), vec![0, 255, 7, 1]);
    let mut bytes = chunk.as_bytes();
    bytes.extend_from_slice(&[9, 9, 9]);
    let (back, used) = Chunk::parse_at(&bytes, 0).unwrap();
    assert_eq!(used, 16);
    assert_eq!(back.length(), chunk.length());
    assert_eq!(back.chunk_type(), chunk.chunk_type());
    assert_eq!(back.data(), chunk.data());
    assert_eq!(back.crc(), chunk.crc());
}

#[test]
fn empty_data_chunk() {
    let chunk = Chunk::new(ChunkType::from_str("IEND").unwrap(), Vec::new());
    assert_eq!(chunk.length(), 0);
    assert_eq!(chunk.crc(), 0xAE42_6082);
    assert_eq!(chunk.as_bytes(), vec![0, 0, 0, 0, 73, 69, 78, 68, 0xAE, 0x42, 0x60, 0x82]);
}

#[test]
fn same_inputs_same_crc() {
    let a = Chunk::new(ChunkType::from_str("RuSt").unwrap(), b"abc".to_vec());
    let b = Chunk::new(ChunkType::from_str("RuSt").unwrap(), b"abc".to_vec());
    let c = Chunk::new(ChunkType::from_str("RuSt").unwrap(), b"abd".to_vec());
    assert_eq!(a.crc(), b.crc());
    assert_ne!(a.crc(), c.crc());
}

#[test]
fn invalid_utf8_is_invalid_text() {
    let chunk = Chunk::new(ChunkType::from_str("RuSt").unwrap(), vec![0xff, 0xfe]);
    assert_eq!(chunk.data_as_string(), Err(PngError::InvalidText));
    let ok = Chunk::new(ChunkType::from_str("RuSt").unwrap(), "héllo".as_bytes().to_vec());
    assert_eq!(ok.data_as_string(), Ok(String::from("héllo")));
}
