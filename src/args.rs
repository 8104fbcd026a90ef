use vstd::prelude::*;

use crate::chunk_type::{letters4_text, text_of, ChunkType};

verus! {

/// The command and its arguments.
pub struct Cli {
    pub commands: Commands,
}

/// What the program is asked to do.
pub enum Commands {
    /// Hide a message in a chunk of the given type.
    Encode(EncodeArgs),
    /// Show the message hidden in a chunk of the given type.
    Decode(DecodeArgs),
    /// Remove the first chunk of the given type.
    Remove(RemoveArgs),
    /// Show every chunk that holds text.
    Print(PrintArgs),
}

/// Arguments of `encode`.
pub struct EncodeArgs {
    /// Path of the PNG file.
    pub file_path: String,
    /// Type of the new chunk.
    pub chunk_type: ChunkType,
    /// The message to hide.
    pub message: String,
    /// Where to write the result; the input file if absent.
    pub output_file: Option<String>,
}

/// Arguments of `decode`.
pub struct DecodeArgs {
    /// Path of the PNG file.
    pub file_path: String,
    /// Type of the chunk to read.
    pub chunk_type: ChunkType,
}

/// Arguments of `remove`.
pub struct RemoveArgs {
    /// Path of the PNG file.
    pub file_path: String,
    /// Type of the chunk to remove.
    pub chunk_type: ChunkType,
}

/// Arguments of `print`.
pub struct PrintArgs {
    /// Path of the PNG file.
    pub file_path: String,
}

/// Reads a chunk type given on the command line, with a message on failure.
pub fn chunk_parser(s: &str) -> (r: Result<ChunkType, String>)
    ensures
        r is Ok <==> letters4_text(s@),
        r matches Ok(t) ==> text_of(t@) == s@,
        r matches Err(m) ==> m@ == "invalid chunk type"@,
{
    match ChunkType::from_str(s) {
        Ok(chunk_type) => Ok(chunk_type),
        Err(e) => Err(e.message()),
    }
}

} // verus!
