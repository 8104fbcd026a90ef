use vstd::prelude::*;
use vstd::utf8::*;

use crate::chunk_type::{letters4, string_from_utf8, strictly_valid, ChunkType};
use crate::error::PngError;

verus! {

/// The CRC-32 (ISO-HDLC, reflected polynomial) checksum of a byte sequence.
pub uninterp spec fn crc32_iso_hdlc(bytes: Seq<u8>) -> u32;

/// Relies on `crc::Crc::<u32>::checksum` with the `CRC_32_ISO_HDLC`
/// algorithm: the checksum is a function of the bytes alone.
#[verifier::external_body]
fn checksum(bytes: &[u8]) -> (r: u32)
    ensures
        r == crc32_iso_hdlc(bytes@),
{
    crc::Crc::<u32>::new(&crc::CRC_32_ISO_HDLC).checksum(bytes)
}

/// The four big-endian bytes of `n`.
pub open spec fn be_bytes(n: u32) -> Seq<u8> {
    seq![(n >> 24) as u8, (n >> 16) as u8, (n >> 8) as u8, n as u8]
}

/// The number that the first four bytes of `b` hold, big-endian.
pub open spec fn be_value(b: Seq<u8>) -> u32
    recommends
        b.len() >= 4,
{
    (b[0] as u32) << 24 | (b[1] as u32) << 16 | (b[2] as u32) << 8 | (b[3] as u32)
}

/// What a chunk is: its length field, type, data and checksum.
pub struct ChunkView {
    pub length: u32,
    pub chunk_type: Seq<u8>,
    pub data: Seq<u8>,
    pub crc: u32,
}

/// The chunk built from a type and data: the length and checksum are
/// derived from the type and the data.
pub open spec fn chunk_of(chunk_type: Seq<u8>, data: Seq<u8>) -> ChunkView {
    ChunkView {
        length: data.len() as u32,
        chunk_type,
        data,
        crc: crc32_iso_hdlc(chunk_type + data),
    }
}

/// A well-formed chunk: a type of four letters, the length of the data in
/// the length field, and the checksum of type and data.
pub open spec fn valid_chunk(v: ChunkView) -> bool {
    &&& letters4(v.chunk_type)
    &&& v.data.len() <= u32::MAX
    &&& v == chunk_of(v.chunk_type, v.data)
}

/// The byte layout of a chunk: length, type, data, checksum.
pub open spec fn chunk_bytes(v: ChunkView) -> Seq<u8> {
    be_bytes(v.length) + v.chunk_type + v.data + be_bytes(v.crc)
}

/// Reading one chunk from the front of `b`: the chunk and the number of bytes
/// it takes, or the first error met.
pub open spec fn parse_chunk(b: Seq<u8>) -> Result<(ChunkView, int), PngError> {
    if b.len() < 12 {
        Err(PngError::TooShort)
    } else if !strictly_valid(b.subrange(4, 8)) {
        Err(PngError::InvalidChunkType)
    } else {
        let n = be_value(b) as int;
        if b.len() < 12 + n {
            Err(PngError::TooShort)
        } else {
            let t = b.subrange(4, 8);
            let d = b.subrange(8, 8 + n);
            let crc = be_value(b.subrange(8 + n, 12 + n));
            if crc != crc32_iso_hdlc(t + d) {
                Err(PngError::CrcMismatch)
            } else {
                Ok((ChunkView { length: n as u32, chunk_type: t, data: d, crc }, 12 + n))
            }
        }
    }
}

/// Reads a big-endian `u32` from four bytes at `at`.
fn read_be_u32(b: &[u8], at: usize) -> (r: u32)
    requires
        at + 4 <= b@.len(),
    ensures
        r == be_value(b@.subrange(at as int, at + 4)),
{
    (b[at] as u32) << 24 | (b[at + 1] as u32) << 16 | (b[at + 2] as u32) << 8 | (b[at + 3] as u32)
}

/// Appends the four big-endian bytes of `n`.
fn push_be_u32(out: &mut Vec<u8>, n: u32)
    ensures
        final(out)@ == old(out)@ + be_bytes(n),
{
    out.push((n >> 24) as u8);
    out.push((n >> 16) as u8);
    out.push((n >> 8) as u8);
    out.push(n as u8);
    assert(final(out)@ =~= old(out)@ + be_bytes(n));
}

/// Appends `b[from..to]`.
fn push_range(out: &mut Vec<u8>, b: &[u8], from: usize, to: usize)
    requires
        from <= to <= b@.len(),
    ensures
        final(out)@ == old(out)@ + b@.subrange(from as int, to as int),
{
    let ghost start = out@;
    let mut i: usize = from;
    while i < to
        invariant
            from <= i <= to <= b@.len(),
            out@ == start + b@.subrange(from as int, i as int),
        decreases to - i,
    {
        out.push(b[i]);
        i = i + 1;
        assert(out@ =~= start + b@.subrange(from as int, i as int));
    }
}

/// A big-endian `u32` read back from its bytes is the same number.
pub proof fn lemma_be_round_trip(n: u32)
    ensures
        be_value(be_bytes(n)) == n,
{
    let a = (n >> 24) as u8;
    let b = (n >> 16) as u8;
    let c = (n >> 8) as u8;
    let d = n as u8;
    assert((a as u32) << 24 | (b as u32) << 16 | (c as u32) << 8 | (d as u32) == n) by (bit_vector)
        requires
            a == (n >> 24) as u8,
            b == (n >> 16) as u8,
            c == (n >> 8) as u8,
            d == n as u8,
    ;
}

/// Reading back the bytes of a well-formed chunk whose type has the reserved
/// bit clear gives the same chunk, and takes exactly its bytes, whatever
/// follows them.
pub proof fn lemma_chunk_round_trip(v: ChunkView, rest: Seq<u8>)
    requires
        valid_chunk(v),
        strictly_valid(v.chunk_type),
    ensures
        chunk_bytes(v).len() == 12 + v.data.len(),
        parse_chunk(chunk_bytes(v) + rest) == Ok::<(ChunkView, int), PngError>(
            (v, 12 + v.data.len() as int),
        ),
{
    let b = chunk_bytes(v) + rest;
    let n = v.data.len() as int;
    lemma_be_round_trip(v.length);
    lemma_be_round_trip(v.crc);
    assert(b.subrange(0, 4) =~= be_bytes(v.length));
    assert(be_value(b) == be_value(b.subrange(0, 4)));
    assert(b.subrange(4, 8) =~= v.chunk_type);
    assert(b.subrange(8, 8 + n) =~= v.data);
    assert(b.subrange(8 + n, 12 + n) =~= be_bytes(v.crc));
    assert(be_value(b.subrange(8 + n, 12 + n)) == v.crc);
}

/// A chunk whose length field asks for more bytes than remain is too short.
pub proof fn lemma_truncated_chunk(b: Seq<u8>)
    requires
        b.len() >= 12,
        strictly_valid(b.subrange(4, 8)),
        be_value(b) > b.len() - 12,
    ensures
        parse_chunk(b) == Err::<(ChunkView, int), PngError>(PngError::TooShort),
{
}

/// The checksum of a constructed chunk depends on its type and data alone.
pub proof fn lemma_crc_deterministic(t1: Seq<u8>, d1: Seq<u8>, t2: Seq<u8>, d2: Seq<u8>)
    requires
        t1 == t2,
        d1 == d2,
    ensures
        chunk_of(t1, d1).crc == chunk_of(t2, d2).crc,
        chunk_of(t1, d1).crc == crc32_iso_hdlc(t1 + d1),
{
}

/// A PNG chunk: a length field, a type, the data and a CRC-32 checksum of
/// type and data.
#[derive(Debug)]
pub struct Chunk {
    length: u32,
    chunk_type: ChunkType,
    data: Vec<u8>,
    crc: u32,
}

impl View for Chunk {
    type V = ChunkView;

    closed spec fn view(&self) -> ChunkView {
        ChunkView {
            length: self.length,
            chunk_type: self.chunk_type@,
            data: self.data@,
            crc: self.crc,
        }
    }
}

impl Chunk {
    #[verifier::type_invariant]
    pub(crate) open spec fn inv(&self) -> bool {
        valid_chunk(self@)
    }

    /// Builds a chunk from a type and data; the length and checksum are
    /// computed.
    pub fn new(chunk_type: ChunkType, data: Vec<u8>) -> (r: Chunk)
        requires
            data@.len() <= u32::MAX,
        ensures
            r@ == chunk_of(chunk_type@, data@),
            valid_chunk(r@),
    {
        let tb = chunk_type.bytes();
        let mut all: Vec<u8> = Vec::new();
        push_range(&mut all, &tb, 0, 4);
        push_range(&mut all, data.as_slice(), 0, data.len());
        assert(tb@.subrange(0, 4) == tb@);
        assert(data@.subrange(0, data@.len() as int) == data@);
        let crc = checksum(all.as_slice());
        Chunk { length: data.len() as u32, chunk_type, data, crc }
    }

    /// The length of the data.
    pub fn length(&self) -> (r: u32)
        ensures
            r == self@.length,
            r == self@.data.len(),
    {
        proof {
            use_type_invariant(self);
        }
        self.length
    }

    /// The chunk's type.
    pub fn chunk_type(&self) -> (r: &ChunkType)
        ensures
            r@ == self@.chunk_type,
    {
        &self.chunk_type
    }

    /// The data.
    pub fn data(&self) -> (r: &[u8])
        ensures
            r@ == self@.data,
    {
        self.data.as_slice()
    }

    /// The stored checksum.
    pub fn crc(&self) -> (r: u32)
        ensures
            r == self@.crc,
            r == crc32_iso_hdlc(self@.chunk_type + self@.data),
    {
        proof {
            use_type_invariant(self);
        }
        self.crc
    }

    /// The data decoded as UTF-8 text.
    pub fn data_as_string(&self) -> (r: Result<String, PngError>)
        ensures
            r is Ok <==> valid_utf8(self@.data),
            r matches Ok(s) ==> s@ == decode_utf8(self@.data),
            r matches Err(e) ==> e == PngError::InvalidText,
    {
        let mut copy: Vec<u8> = Vec::new();
        push_range(&mut copy, self.data.as_slice(), 0, self.data.len());
        assert(self.data@.subrange(0, self.data@.len() as int) == self.data@);
        match string_from_utf8(copy) {
            Some(s) => Ok(s),
            None => Err(PngError::InvalidText),
        }
    }

    /// Writes `self` after `out`, in the chunk byte layout.
    pub(crate) fn write_to(&self, out: &mut Vec<u8>)
        ensures
            final(out)@ == old(out)@ + chunk_bytes(self@),
    {
        let tb = self.chunk_type.bytes();
        push_be_u32(out, self.length);
        push_range(out, &tb, 0, 4);
        push_range(out, self.data.as_slice(), 0, self.data.len());
        push_be_u32(out, self.crc);
        assert(tb@.subrange(0, 4) == tb@);
        assert(self.data@.subrange(0, self.data@.len() as int) == self.data@);
        assert(final(out)@ =~= old(out)@ + chunk_bytes(self@));
    }

    /// The chunk's bytes: length, type, data and checksum.
    pub fn as_bytes(&self) -> (r: Vec<u8>)
        ensures
            r@ == chunk_bytes(self@),
    {
        let mut out: Vec<u8> = Vec::new();
        self.write_to(&mut out);
        assert(out@ =~= chunk_bytes(self@));
        out
    }

    /// Reads one chunk from `bytes[start..]`, and the number of bytes it took.
    pub fn parse_at(bytes: &[u8], start: usize) -> (r: Result<(Chunk, usize), PngError>)
        requires
            start <= bytes@.len(),
        ensures
            match (r, parse_chunk(bytes@.subrange(start as int, bytes@.len() as int))) {
                (Ok((c, n)), Ok((v, m))) => c@ == v && n == m && valid_chunk(c@),
                (Err(e), Err(f)) => e == f,
                _ => false,
            },
    {
        let ghost b = bytes@.subrange(start as int, bytes@.len() as int);
        let remaining = bytes.len() - start;
        if remaining < 12 {
            return Err(PngError::TooShort);
        }
        let n = read_be_u32(bytes, start);
        assert(bytes@.subrange(start as int, start + 4) =~= b.subrange(0, 4));
        let tb: [u8; 4] = [bytes[start + 4], bytes[start + 5], bytes[start + 6], bytes[start + 7]];
        assert(tb@ =~= b.subrange(4, 8));
        let chunk_type = match ChunkType::try_from(tb) {
            Ok(t) => t,
            Err(e) => {
                return Err(e);
            },
        };
        let len = n as usize;
        if remaining - 12 < len {
            return Err(PngError::TooShort);
        }
        let mut data: Vec<u8> = Vec::new();
        push_range(&mut data, bytes, start + 8, start + 8 + len);
        assert(data@ =~= b.subrange(8, 8 + len));
        let stored = read_be_u32(bytes, start + 8 + len);
        assert(bytes@.subrange(start + 8 + len, start + 12 + len) =~= b.subrange(
            8 + len,
            12 + len,
        ));
        let chunk = Chunk::new(chunk_type, data);
        if stored != chunk.crc {
            return Err(PngError::CrcMismatch);
        }
        Ok((chunk, 12 + len))
    }

    /// Reads a chunk from the front of `bytes`.
    pub fn try_from(bytes: &[u8]) -> (r: Result<Chunk, PngError>)
        ensures
            match (r, parse_chunk(bytes@)) {
                (Ok(c), Ok((v, _))) => c@ == v && valid_chunk(c@),
                (Err(e), Err(f)) => e == f,
                _ => false,
            },
    {
        assert(bytes@.subrange(0, bytes@.len() as int) == bytes@);
        match Chunk::parse_at(bytes, 0) {
            Ok((c, _)) => Ok(c),
            Err(e) => Err(e),
        }
    }
}

} // verus!
