use vstd::prelude::*;
use vstd::utf8::*;

use crate::chunk::{chunk_of, Chunk};
use crate::chunk_type::{text_of, ChunkType};
use crate::error::PngError;
use crate::png::{first_of_type, lacks_type, parse_png, png_bytes, Png};

verus! {

/// Text with leading and trailing white space removed.
pub uninterp spec fn trimmed(s: Seq<char>) -> Seq<char>;

/// Relies on `str::trim`: the result depends on the characters alone.
#[verifier::external_body]
fn trim_text(s: &str) -> (r: &str)
    ensures
        r@ == trimmed(s@),
{
    s.trim()
}

/// The bytes of a PNG file after hiding `message` in a new chunk of type
/// `chunk_type`, appended after the others.
pub fn encode_message(file: &[u8], chunk_type: ChunkType, message: &str) -> (r: Result<
    Vec<u8>,
    PngError,
>)
    requires
        encode_utf8(message@).len() <= u32::MAX,
    ensures
        match parse_png(file@) {
            Ok(s) => r matches Ok(out) && out@ == png_bytes(
                s.push(chunk_of(chunk_type@, encode_utf8(message@))),
            ),
            Err(e) => r == Err::<Vec<u8>, PngError>(e),
        },
{
    let mut png = match Png::try_from(file) {
        Ok(p) => p,
        Err(e) => {
            return Err(e);
        },
    };
    let data = vstd::slice::slice_to_vec(message.as_bytes());
    png.append_chunk(Chunk::new(chunk_type, data));
    Ok(png.as_bytes())
}

/// The first chunk of type `chunk_type` in a PNG file.
pub fn decode_message(file: &[u8], chunk_type: &ChunkType) -> (r: Result<Chunk, PngError>)
    ensures
        match parse_png(file@) {
            Ok(s) => {
                &&& (r is Err <==> lacks_type(s, text_of(chunk_type@)))
                &&& (r matches Err(e) ==> e == PngError::NotFound)
                &&& (r matches Ok(c) ==> exists|i: int|
                    first_of_type(s, text_of(chunk_type@), i) && c@ == #[trigger] s[i])
            },
            Err(e) => r is Err && r->Err_0 == e,
        },
{
    let mut png = match Png::try_from(file) {
        Ok(p) => p,
        Err(e) => {
            return Err(e);
        },
    };
    let label = chunk_type.to_string();
    png.remove_chunk(label.as_str())
}

/// The bytes of a PNG file after removing its first chunk of type
/// `chunk_type`.
pub fn remove_message(file: &[u8], chunk_type: &ChunkType) -> (r: Result<Vec<u8>, PngError>)
    ensures
        match parse_png(file@) {
            Ok(s) => {
                &&& (r is Err <==> lacks_type(s, text_of(chunk_type@)))
                &&& (r matches Err(e) ==> e == PngError::NotFound)
                &&& (r matches Ok(out) ==> exists|i: int|
                    first_of_type(s, text_of(chunk_type@), i) && out@ == png_bytes(
                        #[trigger] s.remove(i),
                    ))
            },
            Err(e) => r is Err && r->Err_0 == e,
        },
{
    let mut png = match Png::try_from(file) {
        Ok(p) => p,
        Err(e) => {
            return Err(e);
        },
    };
    let label = chunk_type.to_string();
    match png.remove_chunk(label.as_str()) {
        Ok(_) => Ok(png.as_bytes()),
        Err(e) => Err(e),
    }
}

/// A chunk's data is worth showing: it is UTF-8 text with something besides
/// white space.
pub open spec fn is_message(data: Seq<u8>) -> bool {
    valid_utf8(data) && trimmed(decode_utf8(data)).len() > 0
}

/// The type and text of each chunk of `s` that holds a message, in order.
pub open spec fn messages(s: Seq<crate::chunk::ChunkView>) -> Seq<(Seq<u8>, Seq<char>)>
    decreases s.len(),
{
    if s.len() == 0 {
        Seq::empty()
    } else {
        let rest = messages(s.drop_last());
        let v = s.last();
        if is_message(v.data) {
            rest.push((v.chunk_type, decode_utf8(v.data)))
        } else {
            rest
        }
    }
}

/// The type and text of each chunk that holds a message, in file order.
pub fn printable_messages(png: &Png) -> (r: Vec<(ChunkType, String)>)
    ensures
        r@.map_values(|p: (ChunkType, String)| (p.0@, p.1@)) == messages(png@),
{
    let chunks = png.chunks();
    let ghost view = png@;
    let mut out: Vec<(ChunkType, String)> = Vec::new();
    let mut i: usize = 0;
    while i < chunks.len()
        invariant
            0 <= i <= chunks@.len(),
            chunks@.map_values(|c: Chunk| c@) == view,
            out@.map_values(|p: (ChunkType, String)| (p.0@, p.1@)) == messages(
                view.take(i as int),
            ),
        decreases chunks@.len() - i,
    {
        let c = &chunks[i];
        let ghost before = out@;
        assert(view.take(i + 1).drop_last() =~= view.take(i as int));
        assert(view[i as int] == c@);
        match c.data_as_string() {
            Ok(text) => {
                let t = trim_text(text.as_str());
                if !t.is_empty() {
                    out.push((*c.chunk_type(), text));
                    assert(out@.map_values(|p: (ChunkType, String)| (p.0@, p.1@)) =~= before.map_values(
                        |p: (ChunkType, String)| (p.0@, p.1@),
                    ).push((c@.chunk_type, decode_utf8(c@.data))));
                }
            },
            Err(_) => {},
        }
        i = i + 1;
    }
    assert(view.take(i as int) =~= view);
    out
}

} // verus!
