//! The decompressor: parameters and a context that serves one one-shot
//! decompression after the other, and the way into the other modes.

use vstd::prelude::*;
use crate::batch::batch_process;
use crate::batch::batch_result;
use crate::batch::contents;
use crate::batch::FailedBatch;
use crate::batch::Item;
use crate::buffer::BufferView;
use crate::chunker::ChunkIter;
use crate::codec::framed;
use crate::codec::fresh;
use crate::codec::CodecContext;
use crate::codec::ContextView;
use crate::codec::Direction;
use crate::codec::Directive;
use crate::engine::failed_run;
use crate::engine::offered;
use crate::engine::process;
use crate::engine::took_prefix;
use crate::error::clip;
use crate::error::Error;
use crate::error::ErrorKind;
use crate::params::Parameters;
use crate::reader::ReaderState;
use crate::reader::StreamReader;
use crate::writer::StreamWriter;
use crate::writer::WriterMode;
use crate::writer::WriterState;

verus! {

/// A decompressor. Its view is that of its context: the bytes the codec
/// has taken and given in the one-shot decompressions since the context
/// was made.
pub struct Decompressor<'a> {
    params: Parameters<'a>,
    ctx: CodecContext,
}

impl<'a> View for Decompressor<'a> {
    type V = ContextView;

    closed spec fn view(&self) -> ContextView {
        self.ctx@
    }
}

impl<'a> Decompressor<'a> {
    /// What holds of every decompressor that this module hands out.
    pub closed spec fn wf(&self) -> bool {
        &&& self.ctx.wf()
        &&& self.ctx@.direction == Direction::Decompress
        &&& self.ctx@.config == self.params@
    }

    /// Whether the context is in use. It is not after a failure or an
    /// incomplete result; the next decompression then starts with a new
    /// one.
    pub closed spec fn live(&self) -> bool {
        self.ctx.live()
    }

    /// What the next decompression starts from: the context as it is, or
    /// a new one where the last decompression did not end a frame.
    pub open spec fn base(&self) -> ContextView {
        if self.live() {
            self@
        } else {
            fresh(Direction::Decompress, self@.config)
        }
    }

    /// Makes a decompressor. It fails as making its context fails.
    pub fn new(params: Parameters<'a>) -> (r: Result<Decompressor<'a>, Error>)
        ensures
            match r {
                Ok(d) => d.wf() && d.live() && d@ == fresh(Direction::Decompress, params@),
                Err(e) => {
                    &&& e.offset == 0
                    &&& e.kind == ErrorKind::InvalidParameter || e.kind
                        == ErrorKind::ResourceExhausted
                },
            },
    {
        match CodecContext::create(Direction::Decompress, &params) {
            Ok(ctx) => Ok(Decompressor { params, ctx }),
            Err(e) => Err(e),
        }
    }

    /// Decompresses the first frame of `data`; what follows the frame is
    /// left alone. On success the content returned is exactly what the
    /// codec gave while it took a prefix of `data`. Where the codec ended
    /// the frame, the context stays in use. Where `data` ended first, the
    /// parameters decide: the result is `TruncatedInput`, or, with
    /// truncation tolerated, what was decoded of all of `data`.
    pub fn decompress(&mut self, data: &[u8]) -> (r: Result<Vec<u8>, Error>)
        requires
            old(self).wf(),
        ensures
            final(self).wf(),
            final(self)@.config == old(self)@.config,
            match r {
                Ok(content) => {
                    &&& offered(old(self).base(), final(self)@, data@, Directive::Continue)
                    &&& final(self)@.offers.len() > old(self).base().offers.len()
                    &&& took_prefix(old(self).base().taken, final(self)@.taken, data@)
                    &&& final(self)@.given == old(self).base().given + content@
                    &&& final(self).live() ==> framed(
                        old(self).base(),
                        final(self)@,
                        data@.take(final(self)@.taken.len() - old(self).base().taken.len()),
                        content@,
                    )
                    &&& !final(self).live() ==> final(self)@.config.tolerate_truncation
                        && final(self)@.taken == old(self).base().taken + data@
                },
                Err(e) => {
                    &&& !final(self).live()
                    &&& e.kind != ErrorKind::InvalidParameter
                    &&& final(self)@.direction == old(self)@.direction
                    &&& {
                        // Either no new context could be made (a bad parameter is
                        // by now a bad state),
                        ||| {
                            &&& !old(self).live()
                            &&& final(self)@ == old(self)@
                            &&& e.offset == 0
                            &&& e.kind == ErrorKind::InvalidState || e.kind
                                == ErrorKind::ResourceExhausted
                        }
                        // or the run failed after the codec had taken this much
                        // (see `failed_run`).
                        ||| {
                            &&& took_prefix(old(self).base().taken, final(self)@.taken, data@)
                            &&& offered(
                                old(self).base(),
                                final(self)@,
                                data@,
                                Directive::Continue,
                            )
                            &&& e.offset == clip(final(self)@.taken.len())
                            &&& failed_run(
                                old(self).base(),
                                final(self)@,
                                data@,
                                old(self)@.config.tolerate_truncation,
                                e,
                            )
                        }
                    }
                },
            },
    {
        if !self.ctx.is_live() {
            match CodecContext::create(Direction::Decompress, &self.params) {
                Ok(ctx) => {
                    self.ctx = ctx;
                },
                Err(e) => {
                    return Err(e.later());
                },
            }
        }
        match process(&mut self.ctx, data, self.params.tolerate_truncation()) {
            Ok(done) => {
                proof {
                    assert(data@.take(data@.len() as int) =~= data@);
                }
                Ok(done.output)
            },
            Err(e) => Err(e),
        }
    }

    /// Opens a writer that decompresses what is written to it.
    pub fn open_writer(&self, mode: WriterMode) -> (r: Result<StreamWriter, Error>)
        requires
            self.wf(),
        ensures
            match r {
                Ok(w) => {
                    &&& w.wf()
                    &&& w@.state == WriterState::Open
                    &&& w@.mode == mode
                    &&& w@.context == fresh(Direction::Decompress, self@.config)
                    &&& w@.delivered == Seq::<u8>::empty()
                    &&& w@.held == Seq::<u8>::empty()
                },
                Err(e) => e.offset == 0 && (e.kind == ErrorKind::InvalidParameter || e.kind
                    == ErrorKind::ResourceExhausted),
            },
    {
        StreamWriter::open(Direction::Decompress, &self.params, mode)
    }

    /// Opens a reader that gives the content of the frame that its source
    /// supplies.
    pub fn open_reader(&self) -> (r: Result<StreamReader, Error>)
        requires
            self.wf(),
        ensures
            match r {
                Ok(reader) => {
                    &&& reader.wf()
                    &&& reader@.state == ReaderState::Open
                    &&& reader@.context == fresh(Direction::Decompress, self@.config)
                    &&& reader@.supplied == Seq::<u8>::empty()
                    &&& reader@.delivered == Seq::<u8>::empty()
                    &&& !reader@.source_done
                },
                Err(e) => e.offset == 0 && (e.kind == ErrorKind::InvalidParameter || e.kind
                    == ErrorKind::ResourceExhausted),
            },
    {
        StreamReader::open(Direction::Decompress, &self.params)
    }

    /// Starts the sequence of chunks of `chunk_size` bytes that make up
    /// the content of the frame in `data`. A chunk size of zero is refused
    /// with `InvalidParameter`.
    pub fn iter_chunks(&self, data: &[u8], chunk_size: usize) -> (r: Result<ChunkIter, Error>)
        requires
            self.wf(),
        ensures
            match r {
                Ok(chunks) => {
                    &&& chunk_size > 0
                    &&& chunks.wf()
                    &&& chunks@.size == chunk_size
                    &&& !chunks@.done
                    &&& chunks@.reader.state == ReaderState::Open
                    &&& chunks@.reader.supplied == data@
                    &&& chunks@.reader.delivered == Seq::<u8>::empty()
                    &&& chunks@.reader.context == fresh(Direction::Decompress, self@.config)
                },
                Err(e) => {
                    &&& e.offset == 0
                    &&& chunk_size == 0 ==> e.kind == ErrorKind::InvalidParameter
                    &&& e.kind == ErrorKind::InvalidParameter || e.kind
                        == ErrorKind::ResourceExhausted
                },
            },
    {
        ChunkIter::start(Direction::Decompress, data, chunk_size, &self.params)
    }

    /// Decompresses every input, each of which holds one frame; each
    /// item stands at the place of its input. See `batch_result`.
    pub fn multi_decompress<'b>(&self, inputs: &Vec<BufferView<'b>>) -> (r: Result<
        Vec<Item>,
        FailedBatch,
    >)
        requires
            self.wf(),
        ensures
            batch_result(Direction::Decompress, self@.config, contents(inputs@), r),
    {
        batch_process(Direction::Decompress, inputs, &self.params)
    }
}

} // verus!
