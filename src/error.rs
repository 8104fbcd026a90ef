use vstd::prelude::*;

verus! {

/// Every way an operation of this library can fail.
#[derive(Debug, Clone, Copy, PartialEq, Eq, Structural)]
pub enum PngError {
    /// The first eight bytes are not the PNG signature.
    BadSignature,
    /// Fewer bytes remain than a chunk needs.
    TooShort,
    /// A chunk type is not made of four valid bytes.
    InvalidChunkType,
    /// The stored checksum differs from the one computed over type and data.
    CrcMismatch,
    /// Chunk data is not valid UTF-8.
    InvalidText,
    /// No chunk of the requested type exists.
    NotFound,
}

impl PngError {
    /// A short human-readable description of the error.
    pub fn message(&self) -> (r: String)
        ensures
            r@ == match *self {
                PngError::BadSignature => "bad PNG signature"@,
                PngError::TooShort => "not enough bytes for a chunk"@,
                PngError::InvalidChunkType => "invalid chunk type"@,
                PngError::CrcMismatch => "invalid crc"@,
                PngError::InvalidText => "chunk data is not valid UTF-8"@,
                PngError::NotFound => "chunk not found"@,
            },
    {
        let s: &str = match self {
            PngError::BadSignature => "bad PNG signature",
            PngError::TooShort => "not enough bytes for a chunk",
            PngError::InvalidChunkType => "invalid chunk type",
            PngError::CrcMismatch => "invalid crc",
            PngError::InvalidText => "chunk data is not valid UTF-8",
            PngError::NotFound => "chunk not found",
        };
        s.to_owned()
    }
}

} // verus!
