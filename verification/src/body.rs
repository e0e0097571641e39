//! Request bodies: a buffer that can be sent again, or a sequence of chunks
//! that can be consumed once.

use crate::buffer::{buffer_bytes, buffer_to_vec};
use crate::error::{Error, ErrorView, Kind};
use bytes::Bytes;
use vstd::prelude::*;

verus! {

/// One item of a chunk sequence: a run of bytes, or the failure to produce one.
pub type Chunk = Result<Bytes, Error>;

/// A chunk as plain data.
pub type ChunkView = Result<Seq<u8>, ErrorView>;

/// The plain form of one chunk.
pub open spec fn chunk_view(chunk: Chunk) -> ChunkView {
    match chunk {
        Ok(bytes) => Ok(buffer_bytes(bytes)),
        Err(error) => Err(error@),
    }
}

/// The plain form of a chunk sequence.
pub open spec fn chunks_view(chunks: Seq<Chunk>) -> Seq<ChunkView> {
    chunks.map_values(|chunk: Chunk| chunk_view(chunk))
}

/// The bytes that the chunks carry, one after another; a failure carries none.
pub open spec fn chunk_bytes(chunks: Seq<ChunkView>) -> Seq<u8>
    decreases chunks.len(),
{
    if chunks.len() == 0 {
        Seq::empty()
    } else {
        chunk_bytes(chunks.drop_last()) + match chunks.last() {
            Ok(bytes) => bytes,
            Err(_) => Seq::empty(),
        }
    }
}

/// The first failure among the chunks, if there is one.
pub open spec fn first_failure(chunks: Seq<ChunkView>) -> Option<ErrorView>
    decreases chunks.len(),
{
    if chunks.len() == 0 {
        None
    } else {
        match first_failure(chunks.drop_last()) {
            Some(error) => Some(error),
            None => match chunks.last() {
                Ok(_) => None,
                Err(error) => Some(error),
            },
        }
    }
}

/// What a producer hands in for one chunk: bytes, or the cause of a failure.
pub type Produced = Result<Vec<u8>, String>;

/// The chunk that a body makes of what a producer handed in: bytes stay
/// bytes, a failure becomes an error of kind `Body` with the same cause.
pub open spec fn produced_view(item: Produced) -> ChunkView {
    match item {
        Ok(bytes) => Ok(bytes@),
        Err(cause) => Err(ErrorView { kind: Kind::Body, url: None, cause: cause@ }),
    }
}

/// A body as plain data.
pub enum BodyView {
    /// A finite buffer, which can be sent any number of times.
    Reusable(Seq<u8>),
    /// A sequence of chunks that can be consumed once.
    Streaming(Seq<ChunkView>),
}

impl BodyView {
    /// The length to announce: known for a buffer, unknown for a stream.
    pub open spec fn content_length(self) -> Option<nat> {
        match self {
            BodyView::Reusable(bytes) => Some(bytes.len()),
            BodyView::Streaming(_) => None,
        }
    }

    /// The chunks that the body yields: a buffer yields itself as one chunk,
    /// or nothing where it is empty; a stream yields its own chunks.
    pub open spec fn chunks(self) -> Seq<ChunkView> {
        match self {
            BodyView::Reusable(bytes) => if bytes.len() == 0 {
                Seq::empty()
            } else {
                seq![Ok(bytes)]
            },
            BodyView::Streaming(chunks) => chunks,
        }
    }

    /// What reading the body to its end gives: the first failure, or else
    /// all bytes in order.
    pub open spec fn read(self) -> Result<Seq<u8>, ErrorView> {
        match first_failure(self.chunks()) {
            Some(error) => Err(error),
            None => Ok(chunk_bytes(self.chunks())),
        }
    }
}

#[derive(Debug)]
enum Inner {
    Reusable(Bytes),
    Streaming(Vec<Chunk>),
}

/// A request body.
#[derive(Debug)]
pub struct Body {
    inner: Inner,
}

impl View for Body {
    type V = BodyView;

    closed spec fn view(&self) -> BodyView {
        match self.inner {
            Inner::Reusable(bytes) => BodyView::Reusable(buffer_bytes(bytes)),
            Inner::Streaming(chunks) => BodyView::Streaming(chunks_view(chunks@)),
        }
    }
}

/// Appending one chunk appends its bytes and keeps an earlier failure first.
pub proof fn lemma_chunks_push(chunks: Seq<ChunkView>, chunk: ChunkView)
    ensures
        chunk_bytes(chunks.push(chunk)) == chunk_bytes(chunks) + match chunk {
            Ok(bytes) => bytes,
            Err(_) => Seq::empty(),
        },
        first_failure(chunks.push(chunk)) == match first_failure(chunks) {
            Some(error) => Some(error),
            None => match chunk {
                Ok(_) => None,
                Err(error) => Some(error),
            },
        },
{
    assert(chunks.push(chunk).drop_last() =~= chunks);
}

/// The bytes of two chunk sequences in a row are the bytes of the first
/// followed by those of the second, and the first failure is that of the
/// first sequence if it has one, else that of the second.
pub proof fn lemma_chunks_concat(a: Seq<ChunkView>, b: Seq<ChunkView>)
    ensures
        chunk_bytes(a + b) == chunk_bytes(a) + chunk_bytes(b),
        first_failure(a + b) == match first_failure(a) {
            Some(error) => Some(error),
            None => first_failure(b),
        },
    decreases b.len(),
{
    if b.len() == 0 {
    } else {
        lemma_chunks_concat(a, b.drop_last());
        assert((a + b).drop_last() =~= a + b.drop_last());
    }
}

impl From<Bytes> for Body {
    fn from(bytes: Bytes) -> (body: Body) {
        Body::reusable(bytes)
    }
}

impl vstd::std_specs::convert::FromSpecImpl<Bytes> for Body {
    open spec fn obeys_from_spec() -> bool {
        true
    }

    open spec fn from_spec(bytes: Bytes) -> Body {
        Body::holding(bytes)
    }
}

impl Body {
    /// The body that holds the given buffer.
    pub closed spec fn holding(bytes: Bytes) -> Body {
        Body { inner: Inner::Reusable(bytes) }
    }

    /// What `Body::from` makes of a buffer is a reusable body with the bytes
    /// of the buffer.
    pub proof fn lemma_from_buffer(bytes: Bytes)
        ensures
            Body::holding(bytes)@ == BodyView::Reusable(buffer_bytes(bytes)),
    {
    }

    /// A body without bytes, which can be sent again.
    pub fn empty() -> (body: Body)
        ensures
            body@ == BodyView::Reusable(Seq::<u8>::empty()),
    {
        Body::reusable(Bytes::new())
    }

    /// A body that holds the given buffer and can be sent again.
    pub fn reusable(chunk: Bytes) -> (body: Body)
        ensures
            body == Body::holding(chunk),
            body@ == BodyView::Reusable(buffer_bytes(chunk)),
    {
        Body { inner: Inner::Reusable(chunk) }
    }

    /// A body that holds the given bytes and can be sent again.
    pub fn from_vec(bytes: Vec<u8>) -> (body: Body)
        ensures
            body@ == BodyView::Reusable(bytes@),
    {
        Body::reusable(Bytes::from(bytes))
    }

    /// A body that holds the given text as UTF-8 and can be sent again.
    pub fn from_text(text: &str) -> (body: Body)
        ensures
            body@ == BodyView::Reusable(vstd::utf8::encode_utf8(text@)),
    {
        Body::from_vec(vstd::slice::slice_to_vec(text.as_bytes()))
    }

    /// A body that yields, once, what a producer handed in, item by item. A
    /// failure of the producer becomes an error of kind `Body`.
    pub fn stream(produced: Vec<Produced>) -> (body: Body)
        ensures
            body@ == BodyView::Streaming(produced@.map_values(|item: Produced| produced_view(item))),
    {
        let mut chunks: Vec<Chunk> = Vec::new();
        let mut i: usize = 0;
        while i < produced.len()
            invariant
                i <= produced.len(),
                chunks@.len() == i,
                forall|k: int| 0 <= k < i ==> chunk_view(#[trigger] chunks@[k]) == produced_view(produced@[k]),
            decreases produced.len() - i,
        {
            let chunk: Chunk = match &produced[i] {
                Ok(bytes) => Ok(Bytes::from(bytes.clone())),
                Err(cause) => Err(Error::new(Kind::Body, cause.clone())),
            };
            chunks.push(chunk);
            i = i + 1;
        }
        assert(chunks_view(chunks@) =~= produced@.map_values(|item: Produced| produced_view(item)));
        Body { inner: Inner::Streaming(chunks) }
    }

    /// A body that yields the given chunks once.
    pub fn from_chunks(chunks: Vec<Chunk>) -> (body: Body)
        ensures
            body@ == BodyView::Streaming(chunks_view(chunks@)),
    {
        Body { inner: Inner::Streaming(chunks) }
    }

    /// The number of bytes, where the body is a buffer.
    pub fn content_length(&self) -> (length: Option<u64>)
        ensures
            length.is_some() == self@.content_length().is_some(),
            length matches Some(n) ==> Some(n as nat) == self@.content_length(),
    {
        match &self.inner {
            Inner::Reusable(bytes) => Some(bytes.len() as u64),
            Inner::Streaming(_) => None,
        }
    }

    /// Turns the body into the chunks that it yields.
    pub fn into_chunks(self) -> (chunks: Vec<Chunk>)
        ensures
            chunks_view(chunks@) == self@.chunks(),
    {
        match self.inner {
            Inner::Reusable(bytes) => {
                let mut chunks: Vec<Chunk> = Vec::new();
                if bytes.len() != 0 {
                    chunks.push(Ok(bytes));
                }
                chunks
            },
            Inner::Streaming(chunks) => chunks,
        }
    }

    /// Splits the body into a snapshot for later sending and the body to send
    /// now. A buffer gives a snapshot of itself and stays as it is; a stream
    /// gives no snapshot and is handed back unconsumed.
    pub fn try_reuse(self) -> (split: (Option<Bytes>, Body))
        ensures
            split.1@ == self@,
            match self@ {
                BodyView::Reusable(bytes) => split.0 matches Some(snapshot) && buffer_bytes(snapshot) == bytes,
                BodyView::Streaming(_) => split.0 is None,
            },
    {
        match self.inner {
            Inner::Reusable(bytes) => {
                let snapshot = bytes.clone();
                (Some(snapshot), Body { inner: Inner::Reusable(bytes) })
            },
            Inner::Streaming(chunks) => (None, Body { inner: Inner::Streaming(chunks) }),
        }
    }

    /// Reads the body to its end: all its bytes in order, or the first
    /// failure among its chunks.
    pub fn read_into_bytes(self) -> (read: Result<Vec<u8>, Error>)
        ensures
            match self@.read() {
                Ok(bytes) => read matches Ok(got) && got@ == bytes,
                Err(error) => read matches Err(got) && got@ == error,
            },
    {
        match self.inner {
            Inner::Reusable(bytes) => {
                let got = buffer_to_vec(&bytes);
                proof {
                    if buffer_bytes(bytes).len() != 0 {
                        lemma_chunks_push(Seq::<ChunkView>::empty(), Ok(buffer_bytes(bytes)));
                    }
                }
                Ok(got)
            },
            Inner::Streaming(chunks) => {
                let mut buf: Vec<u8> = Vec::new();
                let mut i: usize = 0;
                while i < chunks.len()
                    invariant
                        i <= chunks.len(),
                        self@ == BodyView::Streaming(chunks_view(chunks@)),
                        first_failure(chunks_view(chunks@).take(i as int)) is None,
                        buf@ == chunk_bytes(chunks_view(chunks@).take(i as int)),
                    decreases chunks.len() - i,
                {
                    proof {
                        let all = chunks_view(chunks@);
                        assert(all.take(i as int + 1) =~= all.take(i as int).push(all[i as int]));
                        lemma_chunks_push(all.take(i as int), all[i as int]);
                        lemma_chunks_concat(all.take(i as int + 1), all.skip(i as int + 1));
                        assert(all.take(i as int + 1) + all.skip(i as int + 1) =~= all);
                    }
                    match &chunks[i] {
                        Ok(bytes) => {
                            let slice: &[u8] = bytes.as_ref();
                            buf.extend_from_slice(slice);
                        },
                        Err(error) => {
                            return Err(error.duplicate());
                        },
                    }
                    i = i + 1;
                }
                assert(chunks_view(chunks@).take(i as int) =~= chunks_view(chunks@));
                Ok(buf)
            },
        }
    }
}

} // verus!
