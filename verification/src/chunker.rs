//! The chunked side: the output for a whole input, handed out lazily in
//! chunks of a chosen size.

use vstd::pervasive::unreached;
use vstd::prelude::*;
use crate::codec::fresh;
use crate::codec::Direction;
use crate::engine::concat;
use crate::error::Error;
use crate::error::ErrorKind;
use crate::params::Parameters;
use crate::reader::read_result;
use crate::reader::ReadOutcome;
use crate::reader::ReaderState;
use crate::reader::ReaderView;
use crate::reader::StreamReader;

verus! {

/// What a sequence of chunks is to its users.
pub struct ChunksView {
    /// The stream that the chunks are read from. Its source is the whole
    /// input, supplied at the start and finished.
    pub reader: ReaderView,
    /// The size of every chunk but the last.
    pub size: usize,
    /// Whether the sequence has ended.
    pub done: bool,
}

/// The result of asking for the next chunk, with the bytes as a sequence.
pub open spec fn chunk_seen(r: Option<Result<Vec<u8>, Error>>) -> Option<Result<Seq<u8>, Error>> {
    match r {
        Some(Ok(bytes)) => Some(Ok(bytes@)),
        Some(Err(e)) => Some(Err(e)),
        None => None,
    }
}

/// What asking for the next chunk is to the stream underneath: a chunk is
/// data, the end is no data, and a failure is a failure.
pub open spec fn as_read(r: Option<Result<Seq<u8>, Error>>) -> Result<Option<Seq<u8>>, Error> {
    match r {
        Some(Ok(chunk)) => Ok(Some(chunk)),
        Some(Err(e)) => Err(e),
        None => Ok(Some(Seq::empty())),
    }
}

/// `next_chunk`. A sequence that has ended stays ended: it gives `None`
/// and does not change. Otherwise the next item is one read of the chunk
/// size from the stream underneath (see `read_result`): data is a chunk,
/// which is never empty; no data is the end; and the end and every
/// failure end the sequence.
pub open spec fn next_result(
    pre: ChunksView,
    r: Option<Result<Seq<u8>, Error>>,
    post: ChunksView,
) -> bool {
    &&& post.size == pre.size
    &&& if pre.done {
        r is None && post == pre
    } else {
        &&& read_result(pre.reader, pre.size, as_read(r), post.reader)
        &&& r matches Some(Ok(chunk)) ==> chunk.len() > 0
        &&& post.done == !(r matches Some(Ok(_)))
    }
}

impl ChunksView {
    /// What holds of every sequence of chunks: the chunk size is not
    /// zero, and the stream underneath is consistent and has all of its
    /// input.
    pub open spec fn consistent(self) -> bool {
        &&& self.size > 0
        &&& self.reader.consistent()
        &&& self.reader.source_done
    }
}

/// The output for one input, in chunks: lazy, finite once the codec ends
/// the frame, read in a single pass, and not restartable.
pub struct ChunkIter {
    reader: StreamReader,
    size: usize,
    done: bool,
}

impl View for ChunkIter {
    type V = ChunksView;

    closed spec fn view(&self) -> ChunksView {
        ChunksView { reader: self.reader@, size: self.size, done: self.done }
    }
}

impl ChunkIter {
    /// What holds of every sequence that this module hands out.
    pub closed spec fn wf(&self) -> bool {
        &&& self.reader.wf()
        &&& self.reader@.source_done
        &&& self.size > 0
    }

    /// Every sequence is consistent.
    pub proof fn lemma_wf_view(&self)
        requires
            self.wf(),
        ensures
            self@.consistent(),
    {
        self.reader.lemma_wf_view();
    }

    /// Starts the sequence of chunks for `data`. A chunk size of zero is
    /// refused with `InvalidParameter`; otherwise it fails as making a
    /// context fails.
    pub fn start(direction: Direction, data: &[u8], chunk_size: usize, params: &Parameters) -> (r:
        Result<ChunkIter, Error>)
        ensures
            match r {
                Ok(chunks) => {
                    &&& chunk_size > 0
                    &&& chunks.wf()
                    &&& chunks@.size == chunk_size
                    &&& !chunks@.done
                    &&& chunks@.reader.state == ReaderState::Open
                    &&& chunks@.reader.supplied == data@
                    &&& chunks@.reader.delivered == Seq::<u8>::empty()
                    &&& chunks@.reader.context == fresh(direction, params@)
                },
                Err(e) => {
                    &&& e.offset == 0
                    &&& chunk_size == 0 ==> e.kind == ErrorKind::InvalidParameter
                    &&& e.kind == ErrorKind::InvalidParameter || e.kind
                        == ErrorKind::ResourceExhausted
                },
            },
    {
        if chunk_size == 0 {
            return Err(Error::new(ErrorKind::InvalidParameter, 0));
        }
        let mut reader = match StreamReader::open(direction, params) {
            Ok(reader) => reader,
            Err(e) => {
                return Err(e);
            },
        };
        match reader.supply(data) {
            Ok(()) => {},
            Err(_) => unreached(),
        }
        reader.finish();
        proof {
            assert(Seq::<u8>::empty() + data@ =~= data@);
        }
        Ok(ChunkIter { reader, size: chunk_size, done: false })
    }

    /// Gives the next chunk, or `None` when there is none. See
    /// `next_result`.
    pub fn next_chunk(&mut self) -> (r: Option<Result<Vec<u8>, Error>>)
        requires
            old(self).wf(),
        ensures
            final(self).wf(),
            next_result(old(self)@, chunk_seen(r), final(self)@),
    {
        if self.done {
            return None;
        }
        proof {
            self.reader.lemma_wf_view();
        }
        match self.reader.read(self.size) {
            Ok(ReadOutcome::Data(chunk)) => {
                if chunk.len() == 0 {
                    self.done = true;
                    proof {
                        assert(old(self).reader@.delivered + chunk@ =~= old(
                            self,
                        ).reader@.delivered);
                    }
                    None
                } else {
                    Some(Ok(chunk))
                }
            },
            // The source is finished, so the reader has no input to ask for.
            Ok(ReadOutcome::NeedInput) => unreached(),
            Err(e) => {
                self.done = true;
                Some(Err(e))
            },
        }
    }
}

/// A sequence of chunks is not restartable: once it has given `None`, it
/// gives `None` again, and nothing about it changes.
pub proof fn lemma_chunks_end_once(
    before: ChunksView,
    between: ChunksView,
    r: Option<Result<Seq<u8>, Error>>,
    after: ChunksView,
)
    requires
        next_result(before, None, between),
        next_result(between, r, after),
    ensures
        r is None,
        after == between,
{
}

/// A failure ends a sequence of chunks too: after it, the sequence gives
/// `None`.
pub proof fn lemma_chunks_end_at_failure(
    before: ChunksView,
    e: Error,
    between: ChunksView,
    r: Option<Result<Seq<u8>, Error>>,
    after: ChunksView,
)
    requires
        !before.done,
        next_result(before, Some(Err(e)), between),
        next_result(between, r, after),
    ensures
        r is None,
        after == between,
{
}

/// Only the last chunk is short: a chunk that is followed by another
/// chunk has exactly the chunk size.
pub proof fn lemma_only_the_last_chunk_is_short(
    before: ChunksView,
    chunk: Seq<u8>,
    between: ChunksView,
    next: Seq<u8>,
    after: ChunksView,
)
    requires
        before.consistent(),
        next_result(before, Some(Ok(chunk)), between),
        next_result(between, Some(Ok(next)), after),
    ensures
        chunk.len() == before.size,
        0 < next.len() <= before.size,
{
}

/// The chunks are the output: after any number of chunks, what has been
/// handed out is the chunks one behind the other, and it is all that the
/// codec gave.
pub proof fn lemma_chunks_carry_every_byte(
    views: Seq<ChunksView>,
    chunks: Seq<Seq<u8>>,
    n: int,
)
    requires
        views.len() == chunks.len() + 1,
        views[0].consistent(),
        forall|i: int|
            0 <= i < chunks.len() ==> next_result(
                views[i],
                Some(Ok(#[trigger] chunks[i])),
                views[i + 1],
            ),
        0 <= n <= chunks.len(),
    ensures
        views[n].consistent(),
        views[n].size == views[0].size,
        views[n].reader.supplied == views[0].reader.supplied,
        views[n].reader.delivered == views[0].reader.delivered + concat(chunks.take(n)),
        views[n].reader.context.given == views[n].reader.delivered,
    decreases n,
{
    if n == 0 {
        assert(chunks.take(0) =~= Seq::<Seq<u8>>::empty());
        assert(views[0].reader.delivered + concat(chunks.take(0)) =~= views[0].reader.delivered);
    } else {
        lemma_chunks_carry_every_byte(views, chunks, n - 1);
        let last = chunks[n - 1];
        assert(next_result(views[n - 1], Some(Ok(last)), views[n - 1 + 1]));
        assert(chunks.take(n).drop_last() =~= chunks.take(n - 1));
        assert(chunks.take(n).last() == chunks[n - 1]);
        assert(views[n].reader.delivered =~= views[0].reader.delivered + concat(chunks.take(n)));
    }
}

} // verus!
