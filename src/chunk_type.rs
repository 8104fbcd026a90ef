use vstd::prelude::*;
use vstd::utf8::*;

use crate::error::PngError;

verus! {

/// An ASCII letter, upper case (`A`..=`Z`) or lower case (`a`..=`z`).
pub open spec fn is_ascii_letter(b: u8) -> bool {
    (65 <= b <= 90) || (97 <= b <= 122)
}

/// Bit 5 (value 32) of a byte.
pub open spec fn bit5(b: u8) -> bool {
    b & 0x20 != 0
}

/// Four bytes, each an ASCII letter: the rule for a type read from text.
pub open spec fn letters4(b: Seq<u8>) -> bool {
    &&& b.len() == 4
    &&& forall|i: int| 0 <= i < 4 ==> is_ascii_letter(#[trigger] b[i])
}

/// The strict rule for a type read from raw bytes: four letters, and the
/// reserved bit (bit 5 of the third byte) clear.
pub open spec fn strictly_valid(b: Seq<u8>) -> bool {
    letters4(b) && !bit5(b[2])
}

/// An ASCII letter as a character.
pub open spec fn is_letter_char(c: char) -> bool {
    ('A' <= c <= 'Z') || ('a' <= c <= 'z')
}

/// Four characters, each an ASCII letter: the labels a type can be read from.
pub open spec fn letters4_text(s: Seq<char>) -> bool {
    &&& s.len() == 4
    &&& forall|i: int| 0 <= i < 4 ==> is_letter_char(#[trigger] s[i])
}

/// The text of a type: each byte read as the ASCII character of that code.
pub open spec fn text_of(b: Seq<u8>) -> Seq<char> {
    b.map_values(|x: u8| (x as u32) as char)
}

/// A four-byte PNG chunk type code, such as `IHDR` or `RuSt`.
///
/// Each byte is an ASCII letter; bit 5 of each byte carries one property.
#[derive(Debug, Clone, Copy, PartialEq, Eq, Structural)]
pub struct ChunkType(u8, u8, u8, u8);

impl View for ChunkType {
    type V = Seq<u8>;

    closed spec fn view(&self) -> Seq<u8> {
        seq![self.0, self.1, self.2, self.3]
    }
}

/// Bytes below 128, read as characters, encode in UTF-8 to the same bytes,
/// and decode back from them.
pub proof fn lemma_ascii_text(b: Seq<u8>)
    requires
        forall|i: int| 0 <= i < b.len() ==> #[trigger] b[i] < 128,
    ensures
        is_ascii_chars(text_of(b)),
        encode_utf8(text_of(b)) == b,
        valid_utf8(b),
        decode_utf8(b) == text_of(b),
{
    let t = text_of(b);
    assert forall|i: int| 0 <= i < t.len() implies '\0' <= #[trigger] t[i] <= '\u{7f}' by {
        assert(b[i] < 128);
    }
    is_ascii_chars_encode_utf8(t);
    assert forall|i: int| 0 <= i < b.len() implies #[trigger] encode_utf8(t)[i] == b[i] by {
        assert(t[i] as u8 == encode_utf8(t)[i]);
        assert(b[i] < 128);
    }
    assert(encode_utf8(t) =~= b);
    encode_utf8_valid_utf8(t);
    encode_utf8_decode_utf8(t);
}

/// Relies on `String::from_utf8`: it succeeds exactly on valid UTF-8, and then
/// holds the characters that the bytes encode.
#[verifier::external_body]
pub(crate) fn string_from_utf8(bytes: Vec<u8>) -> (r: Option<String>)
    ensures
        r is Some <==> valid_utf8(bytes@),
        r matches Some(s) ==> s@ == decode_utf8(bytes@),
{
    String::from_utf8(bytes).ok()
}

impl ChunkType {
    #[verifier::type_invariant]
    spec fn inv(&self) -> bool {
        letters4(self@)
    }

    /// The four raw bytes, each an ASCII letter.
    pub fn bytes(&self) -> (r: [u8; 4])
        ensures
            r@ == self@,
            letters4(self@),
    {
        proof {
            use_type_invariant(self);
        }
        [self.0, self.1, self.2, self.3]
    }

    /// The type as text: its four bytes as ASCII characters.
    pub fn to_string(&self) -> (r: String)
        ensures
            r@ == text_of(self@),
    {
        let v: Vec<u8> = vec![self.0, self.1, self.2, self.3];
        proof {
            use_type_invariant(self);
            assert(v@ == self@);
            lemma_ascii_text(v@);
        }
        match string_from_utf8(v) {
            Some(s) => s,
            None => String::new(),
        }
    }

    /// Whether the type's text is `s`.
    pub fn has_text(&self, s: &str) -> (r: bool)
        ensures
            r == (text_of(self@) == s@),
    {
        let sb = s.as_bytes();
        let b = self.bytes();
        proof {
            lemma_ascii_text(self@);
            encode_utf8_decode_utf8(s@);
        }
        if sb.len() != 4 {
            return false;
        }
        let r = sb[0] == b[0] && sb[1] == b[1] && sb[2] == b[2] && sb[3] == b[3];
        proof {
            if r {
                assert(sb@ =~= self@);
            }
        }
        r
    }

    /// Whether all four bytes are ASCII letters.
    fn is_valid_ascii(&self) -> (r: bool)
        ensures
            r == letters4(self@),
    {
        proof {
            use_type_invariant(self);
        }
        let b = self.bytes();
        let mut i: usize = 0;
        while i < 4
            invariant
                0 <= i <= 4,
                b@ == self@,
                forall|j: int| 0 <= j < i ==> is_ascii_letter(#[trigger] b@[j]),
            decreases 4 - i,
        {
            let c = b[i];
            if !((65 <= c && c <= 90) || (97 <= c && c <= 122)) {
                return false;
            }
            i = i + 1;
        }
        true
    }

    /// Strict validity: four ASCII letters and the reserved bit clear.
    pub fn is_valid(&self) -> (r: bool)
        ensures
            r == strictly_valid(self@),
    {
        self.is_valid_ascii() && self.is_reserved_bit_valid()
    }

    /// Critical (bit 5 of the first byte clear), as opposed to ancillary.
    pub fn is_critical(&self) -> (r: bool)
        ensures
            r == !bit5(self@[0]),
    {
        self.0 & 0x20 == 0
    }

    /// Public (bit 5 of the second byte clear), as opposed to private.
    pub fn is_public(&self) -> (r: bool)
        ensures
            r == !bit5(self@[1]),
    {
        self.1 & 0x20 == 0
    }

    /// The reserved bit (bit 5 of the third byte) is clear.
    pub fn is_reserved_bit_valid(&self) -> (r: bool)
        ensures
            r == !bit5(self@[2]),
    {
        self.2 & 0x20 == 0
    }

    /// Safe to copy (bit 5 of the fourth byte set).
    pub fn is_safe_to_copy(&self) -> (r: bool)
        ensures
            r == bit5(self@[3]),
    {
        self.3 & 0x20 != 0
    }

    /// Reads a type from raw bytes under the strict rule.
    pub fn try_from(value: [u8; 4]) -> (r: Result<ChunkType, PngError>)
        ensures
            r is Ok <==> strictly_valid(value@),
            r matches Ok(t) ==> t@ == value@,
            r matches Err(e) ==> e == PngError::InvalidChunkType,
    {
        let a = value[0];
        let b = value[1];
        let c = value[2];
        let d = value[3];
        let ok = (65 <= a && a <= 90 || 97 <= a && a <= 122) && (65 <= b && b <= 90 || 97 <= b
            && b <= 122) && (65 <= c && c <= 90 || 97 <= c && c <= 122) && (65 <= d && d <= 90
            || 97 <= d && d <= 122) && c & 0x20 == 0;
        assert(value@ == seq![a, b, c, d]);
        if ok {
            let t = ChunkType(a, b, c, d);
            assert(t@ == value@);
            Ok(t)
        } else {
            assert(!strictly_valid(value@)) by {
                if strictly_valid(value@) {
                    assert(is_ascii_letter(value@[0]));
                    assert(is_ascii_letter(value@[1]));
                    assert(is_ascii_letter(value@[2]));
                    assert(is_ascii_letter(value@[3]));
                }
            }
            Err(PngError::InvalidChunkType)
        }
    }

    /// Reads a type from a four-character label. Only the letters are
    /// checked here, not the reserved bit.
    pub fn from_str(s: &str) -> (r: Result<ChunkType, PngError>)
        ensures
            r is Ok <==> letters4_text(s@),
            r matches Ok(t) ==> text_of(t@) == s@,
            r matches Err(e) ==> e == PngError::InvalidChunkType,
    {
        let bytes = s.as_bytes();
        proof {
            if letters4_text(s@) {
                assert(is_ascii_chars(s@));
                is_ascii_chars_encode_utf8(s@);
            }
        }
        if bytes.len() != 4 {
            return Err(PngError::InvalidChunkType);
        }
        let a = bytes[0];
        let b = bytes[1];
        let c = bytes[2];
        let d = bytes[3];
        let ok = (65 <= a && a <= 90 || 97 <= a && a <= 122) && (65 <= b && b <= 90 || 97 <= b
            && b <= 122) && (65 <= c && c <= 90 || 97 <= c && c <= 122) && (65 <= d && d <= 90
            || 97 <= d && d <= 122);
        assert(bytes@ == seq![a, b, c, d]);
        if ok {
            let t = ChunkType(a, b, c, d);
            proof {
                lemma_ascii_text(bytes@);
                encode_utf8_decode_utf8(s@);
                assert(s@ == text_of(bytes@));
                assert(t@ == bytes@);
            }
            Ok(t)
        } else {
            proof {
                if letters4_text(s@) {
                    assert(bytes@[0] == s@[0] as u8);
                    assert(bytes@[1] == s@[1] as u8);
                    assert(bytes@[2] == s@[2] as u8);
                    assert(bytes@[3] == s@[3] as u8);
                }
            }
            Err(PngError::InvalidChunkType)
        }
    }
}

impl std::str::FromStr for ChunkType {
    type Err = PngError;

    fn from_str(s: &str) -> Result<ChunkType, PngError> {
        ChunkType::from_str(s)
    }
}

impl std::convert::TryFrom<[u8; 4]> for ChunkType {
    type Error = PngError;

    fn try_from(value: [u8; 4]) -> (r: Result<ChunkType, PngError>) {
        ChunkType::try_from(value)
    }
}

impl vstd::std_specs::convert::TryFromSpecImpl<[u8; 4]> for ChunkType {
    open spec fn obeys_try_from_spec() -> bool {
        true
    }

    closed spec fn try_from_spec(value: [u8; 4]) -> Result<ChunkType, PngError> {
        if strictly_valid(value@) {
            Ok(ChunkType(value@[0], value@[1], value@[2], value@[3]))
        } else {
            Err(PngError::InvalidChunkType)
        }
    }
}

} // verus!
