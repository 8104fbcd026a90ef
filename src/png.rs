use vstd::prelude::*;

use crate::chunk::{
    chunk_bytes, lemma_chunk_round_trip, parse_chunk, valid_chunk, Chunk, ChunkView,
};
use crate::chunk_type::{strictly_valid, text_of};
use crate::error::PngError;

verus! {

/// The eight bytes that open every PNG file.
pub const STANDARD_HEADER: [u8; 8] = [137, 80, 78, 71, 13, 10, 26, 10];

/// The PNG signature as a sequence.
pub open spec fn signature() -> Seq<u8> {
    seq![137u8, 80u8, 78u8, 71u8, 13u8, 10u8, 26u8, 10u8]
}

/// The bytes of a list of chunks, one after another in order.
pub open spec fn chunks_bytes(s: Seq<ChunkView>) -> Seq<u8>
    decreases s.len(),
{
    if s.len() == 0 {
        Seq::empty()
    } else {
        chunks_bytes(s.drop_last()) + chunk_bytes(s.last())
    }
}

/// The bytes of a PNG file that holds the chunks `s`.
pub open spec fn png_bytes(s: Seq<ChunkView>) -> Seq<u8> {
    signature() + chunks_bytes(s)
}

/// Reading chunks until the bytes are used up exactly; the first error stops it.
pub open spec fn parse_chunks(b: Seq<u8>) -> Result<Seq<ChunkView>, PngError>
    decreases b.len(),
{
    if b.len() == 0 {
        Ok(Seq::empty())
    } else {
        match parse_chunk(b) {
            Err(e) => Err(e),
            Ok((v, n)) => if 0 < n <= b.len() {
                match parse_chunks(b.subrange(n, b.len() as int)) {
                    Ok(rest) => Ok(seq![v] + rest),
                    Err(e) => Err(e),
                }
            } else {
                Err(PngError::TooShort)
            },
        }
    }
}

/// Reading a PNG file: the signature, then its chunks.
pub open spec fn parse_png(b: Seq<u8>) -> Result<Seq<ChunkView>, PngError> {
    if b.len() < 8 || b.subrange(0, 8) != signature() {
        Err(PngError::BadSignature)
    } else {
        parse_chunks(b.subrange(8, b.len() as int))
    }
}

/// `acc` put before the chunks of `r`, or the error of `r`.
pub open spec fn after(acc: Seq<ChunkView>, r: Result<Seq<ChunkView>, PngError>) -> Result<
    Seq<ChunkView>,
    PngError,
> {
    match r {
        Ok(s) => Ok(acc + s),
        Err(e) => Err(e),
    }
}

/// The chunk has the type whose text is `t`.
pub open spec fn has_type(v: ChunkView, t: Seq<char>) -> bool {
    text_of(v.chunk_type) == t
}

/// No chunk of `s` has the type `t`.
pub open spec fn lacks_type(s: Seq<ChunkView>, t: Seq<char>) -> bool {
    forall|j: int| 0 <= j < s.len() ==> !has_type(#[trigger] s[j], t)
}

/// `i` is the position of the first chunk of `s` with the type `t`.
pub open spec fn first_of_type(s: Seq<ChunkView>, t: Seq<char>, i: int) -> bool {
    &&& 0 <= i < s.len()
    &&& has_type(s[i], t)
    &&& lacks_type(s.take(i), t)
}

/// The bytes of one chunk put before the bytes of others.
pub proof fn lemma_chunks_bytes_front(v: ChunkView, s: Seq<ChunkView>)
    ensures
        chunks_bytes(seq![v] + s) == chunk_bytes(v) + chunks_bytes(s),
    decreases s.len(),
{
    if s.len() == 0 {
        assert((seq![v] + s).drop_last() =~= Seq::<ChunkView>::empty());
        assert((seq![v] + s).last() == v);
        assert(chunks_bytes(Seq::<ChunkView>::empty()) == Seq::<u8>::empty());
        assert(chunks_bytes(seq![v] + s) =~= chunk_bytes(v) + chunks_bytes(s));
    } else {
        assert((seq![v] + s).drop_last() =~= seq![v] + s.drop_last());
        lemma_chunks_bytes_front(v, s.drop_last());
        assert(chunks_bytes(seq![v] + s) =~= chunk_bytes(v) + chunks_bytes(s));
    }
}

/// Reading back the bytes of well-formed chunks, whose types have the reserved
/// bit clear, gives the same chunks in the same order.
pub proof fn lemma_chunks_round_trip(s: Seq<ChunkView>)
    requires
        forall|i: int|
            0 <= i < s.len() ==> valid_chunk(#[trigger] s[i]) && strictly_valid(s[i].chunk_type),
    ensures
        parse_chunks(chunks_bytes(s)) == Ok::<Seq<ChunkView>, PngError>(s),
    decreases s.len(),
{
    if s.len() == 0 {
        assert(s =~= Seq::<ChunkView>::empty());
    } else {
        let v = s[0];
        let rest = s.drop_first();
        assert(s =~= seq![v] + rest);
        lemma_chunks_bytes_front(v, rest);
        let rb = chunks_bytes(rest);
        let b = chunk_bytes(v) + rb;
        lemma_chunk_round_trip(v, rb);
        let n = 12 + v.data.len() as int;
        assert(b.subrange(n, b.len() as int) =~= rb);
        assert forall|i: int| 0 <= i < rest.len() implies valid_chunk(#[trigger] rest[i])
            && strictly_valid(rest[i].chunk_type) by {
            assert(rest[i] == s[i + 1]);
        }
        lemma_chunks_round_trip(rest);
        assert(parse_chunks(b) == Ok::<Seq<ChunkView>, PngError>(seq![v] + rest));
    }
}

/// Reading back the bytes of a PNG whose chunks are well formed, with types
/// whose reserved bit is clear, gives the same chunks in the same order.
pub proof fn lemma_png_round_trip(s: Seq<ChunkView>)
    requires
        forall|i: int|
            0 <= i < s.len() ==> valid_chunk(#[trigger] s[i]) && strictly_valid(s[i].chunk_type),
    ensures
        parse_png(png_bytes(s)) == Ok::<Seq<ChunkView>, PngError>(s),
{
    let b = png_bytes(s);
    assert(b.subrange(0, 8) =~= signature());
    assert(b.subrange(8, b.len() as int) =~= chunks_bytes(s));
    lemma_chunks_round_trip(s);
}

/// Bytes that do not open with the PNG signature are refused with
/// `BadSignature`, whatever follows.
pub proof fn lemma_bad_signature(b: Seq<u8>)
    requires
        b.len() < 8 || b.subrange(0, 8) != signature(),
    ensures
        parse_png(b) == Err::<Seq<ChunkView>, PngError>(PngError::BadSignature),
{
}

/// After appending a chunk of type `t` to chunks that have none, it is the
/// first chunk of type `t`; removing it again leaves no chunk of type `t`.
pub proof fn lemma_append_find_remove(s: Seq<ChunkView>, v: ChunkView, t: Seq<char>)
    requires
        lacks_type(s, t),
        has_type(v, t),
    ensures
        first_of_type(s.push(v), t, s.len() as int),
        s.push(v).remove(s.len() as int) == s,
        lacks_type(s.push(v).remove(s.len() as int), t),
{
    assert(s.push(v).take(s.len() as int) =~= s);
    assert(s.push(v).remove(s.len() as int) =~= s);
}

/// A PNG file: the signature followed by an ordered list of chunks.
#[derive(Debug)]
pub struct Png {
    chunks: Vec<Chunk>,
}

impl View for Png {
    type V = Seq<ChunkView>;

    closed spec fn view(&self) -> Seq<ChunkView> {
        self.chunks@.map_values(|c: Chunk| c@)
    }
}

impl Png {
    #[verifier::type_invariant]
    spec fn inv(&self) -> bool {
        forall|i: int| 0 <= i < self.chunks@.len() ==> valid_chunk(#[trigger] self.chunks@[i]@)
    }

    /// A PNG holding the given chunks, in order.
    pub fn from_chunks(chunks: Vec<Chunk>) -> (r: Png)
        ensures
            r@ == chunks@.map_values(|c: Chunk| c@),
    {
        let mut i: usize = 0;
        while i < chunks.len()
            invariant
                0 <= i <= chunks@.len(),
                forall|j: int| 0 <= j < i ==> valid_chunk(#[trigger] chunks@[j]@),
            decreases chunks@.len() - i,
        {
            let c = &chunks[i];
            proof {
                use_type_invariant(c);
            }
            i = i + 1;
        }
        Png { chunks }
    }

    /// Reads a PNG file: the signature, then chunks until the bytes end.
    pub fn try_from(bytes: &[u8]) -> (r: Result<Png, PngError>)
        ensures
            match (r, parse_png(bytes@)) {
                (Ok(p), Ok(s)) => p@ == s,
                (Err(e), Err(f)) => e == f,
                _ => false,
            },
    {
        if bytes.len() < 8 {
            return Err(PngError::BadSignature);
        }
        let header = STANDARD_HEADER;
        let mut k: usize = 0;
        while k < 8
            invariant
                0 <= k <= 8 <= bytes@.len(),
                header@ == signature(),
                forall|j: int| 0 <= j < k ==> bytes@[j] == #[trigger] header@[j],
            decreases 8 - k,
        {
            if bytes[k] != header[k] {
                assert(bytes@.subrange(0, 8)[k as int] != signature()[k as int]);
                return Err(PngError::BadSignature);
            }
            k = k + 1;
        }
        assert(bytes@.subrange(0, 8) =~= signature());
        let mut chunks: Vec<Chunk> = Vec::new();
        let mut pos: usize = 8;
        while pos < bytes.len()
            invariant
                8 <= pos <= bytes@.len(),
                forall|j: int| 0 <= j < chunks@.len() ==> valid_chunk(#[trigger] chunks@[j]@),
                parse_png(bytes@) == after(
                    chunks@.map_values(|c: Chunk| c@),
                    parse_chunks(bytes@.subrange(pos as int, bytes@.len() as int)),
                ),
            decreases bytes@.len() - pos,
        {
            let ghost acc = chunks@.map_values(|c: Chunk| c@);
            let ghost b = bytes@.subrange(pos as int, bytes@.len() as int);
            match Chunk::parse_at(bytes, pos) {
                Ok((c, n)) => {
                    let ghost v = c@;
                    assert(b.subrange(n as int, b.len() as int) =~= bytes@.subrange(
                        pos + n,
                        bytes@.len() as int,
                    ));
                    chunks.push(c);
                    pos = pos + n;
                    assert(chunks@.map_values(|c: Chunk| c@) =~= acc.push(v));
                    proof {
                        match parse_chunks(bytes@.subrange(pos as int, bytes@.len() as int)) {
                            Ok(rest) => {
                                assert(acc + (seq![v] + rest) =~= acc.push(v) + rest);
                            },
                            Err(_) => {},
                        }
                    }
                },
                Err(e) => {
                    return Err(e);
                },
            }
        }
        assert(bytes@.subrange(pos as int, bytes@.len() as int) =~= Seq::<u8>::empty());
        assert(chunks@.map_values(|c: Chunk| c@) + Seq::<ChunkView>::empty() =~= chunks@.map_values(
            |c: Chunk| c@,
        ));
        Ok(Png { chunks })
    }

    /// The PNG signature.
    pub fn header(&self) -> (r: [u8; 8])
        ensures
            r@ == signature(),
    {
        STANDARD_HEADER
    }

    /// The chunks, in order; each is well formed.
    pub fn chunks(&self) -> (r: &[Chunk])
        ensures
            r@.map_values(|c: Chunk| c@) == self@,
            forall|i: int| 0 <= i < self@.len() ==> valid_chunk(#[trigger] self@[i]),
    {
        proof {
            use_type_invariant(self);
            assert forall|i: int| 0 <= i < self@.len() implies valid_chunk(#[trigger] self@[i]) by {
                assert(self@[i] == self.chunks@[i]@);
            }
        }
        self.chunks.as_slice()
    }

    /// Appends a chunk at the end; chunks of the same type may repeat.
    pub fn append_chunk(&mut self, chunk: Chunk)
        ensures
            final(self)@ == old(self)@.push(chunk@),
    {
        proof {
            use_type_invariant(&*self);
            use_type_invariant(&chunk);
        }
        let mut chunks: Vec<Chunk> = Vec::new();
        std::mem::swap(&mut chunks, &mut self.chunks);
        chunks.push(chunk);
        self.chunks = chunks;
        assert(final(self)@ =~= old(self)@.push(chunk@));
    }

    /// The position of the first chunk whose type has the text `chunk_type`.
    fn position_of(&self, chunk_type: &str) -> (r: Option<usize>)
        ensures
            r matches Some(i) ==> first_of_type(self@, chunk_type@, i as int),
            r is None ==> lacks_type(self@, chunk_type@),
    {
        let mut i: usize = 0;
        while i < self.chunks.len()
            invariant
                0 <= i <= self.chunks@.len(),
                self@.len() == self.chunks@.len(),
                lacks_type(self@.take(i as int), chunk_type@),
            decreases self.chunks@.len() - i,
        {
            if self.chunks[i].chunk_type().has_text(chunk_type) {
                return Some(i);
            }
            assert(self@.take(i + 1) =~= self@.take(i as int).push(self@[i as int]));
            i = i + 1;
        }
        assert(self@.take(i as int) =~= self@);
        None
    }

    /// The first chunk whose type has the text `chunk_type`, if there is one.
    pub fn chunk_by_type(&self, chunk_type: &str) -> (r: Option<&Chunk>)
        ensures
            r is None <==> lacks_type(self@, chunk_type@),
            r matches Some(c) ==> exists|i: int|
                first_of_type(self@, chunk_type@, i) && c@ == #[trigger] self@[i],
    {
        match self.position_of(chunk_type) {
            Some(i) => {
                assert(first_of_type(self@, chunk_type@, i as int));
                assert(!lacks_type(self@, chunk_type@));
                Some(&self.chunks[i])
            },
            None => None,
        }
    }

    /// Removes and returns the first chunk whose type has the text
    /// `chunk_type`; `NotFound` if there is none.
    pub fn remove_chunk(&mut self, chunk_type: &str) -> (r: Result<Chunk, PngError>)
        ensures
            r is Err <==> lacks_type(old(self)@, chunk_type@),
            r matches Err(e) ==> e == PngError::NotFound && final(self)@ == old(self)@,
            r matches Ok(c) ==> exists|i: int|
                first_of_type(old(self)@, chunk_type@, i) && c@ == #[trigger] old(self)@[i]
                    && final(self)@ == old(self)@.remove(i),
    {
        proof {
            use_type_invariant(&*self);
        }
        match self.position_of(chunk_type) {
            Some(i) => {
                assert(!lacks_type(old(self)@, chunk_type@));
                let mut chunks: Vec<Chunk> = Vec::new();
                std::mem::swap(&mut chunks, &mut self.chunks);
                let c = chunks.remove(i);
                self.chunks = chunks;
                assert(final(self)@ =~= old(self)@.remove(i as int));
                Ok(c)
            },
            None => Err(PngError::NotFound),
        }
    }

    /// The file's bytes: the signature, then each chunk's bytes in order.
    pub fn as_bytes(&self) -> (r: Vec<u8>)
        ensures
            r@ == png_bytes(self@),
    {
        let mut out: Vec<u8> = Vec::new();
        let header = STANDARD_HEADER;
        let mut k: usize = 0;
        while k < 8
            invariant
                0 <= k <= 8,
                header@ == signature(),
                out@ == signature().take(k as int),
            decreases 8 - k,
        {
            out.push(header[k]);
            k = k + 1;
            assert(out@ =~= signature().take(k as int));
        }
        assert(signature().take(8) =~= signature());
        let mut i: usize = 0;
        while i < self.chunks.len()
            invariant
                0 <= i <= self.chunks@.len(),
                self@.len() == self.chunks@.len(),
                out@ == signature() + chunks_bytes(self@.take(i as int)),
            decreases self.chunks@.len() - i,
        {
            self.chunks[i].write_to(&mut out);
            assert(self@.take(i + 1).drop_last() =~= self@.take(i as int));
            assert(self@[i as int] == self.chunks@[i as int]@);
            i = i + 1;
            assert(out@ =~= signature() + chunks_bytes(self@.take(i as int)));
        }
        assert(self@.take(i as int) =~= self@);
        out
    }
}

} // verus!
