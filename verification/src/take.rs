//! Streaming jobs from the server: the request that opens the stream, and
//! the decisions that turn its bytes into jobs.

use vstd::prelude::*;
use crate::error::ZizqError;
use crate::format::Format;
use crate::frames::{next_frame, DecodeResult, StreamDecoder};
use crate::request::{opt_param, plain_request, two_segments, Method, Params, Request, RequestModel};
use crate::text::{decimal, decimal_text, join, joined, owned, slice_texts, texts};

verus! {

/// Builder for a job stream.
#[derive(Debug)]
pub struct TakeBuilder {
    /// Queues to stream from; none means all queues.
    pub queues: Vec<String>,
    /// Maximum number of unacknowledged jobs that the server sends.
    pub prefetch: Option<u32>,
}

/// The `queue` parameter of a stream: one comma-separated list.
pub open spec fn queue_list(queues: Seq<Seq<char>>) -> Option<Seq<char>> {
    if queues.len() > 0 {
        Some(joined(queues, ","@))
    } else {
        None
    }
}

/// An optional prefetch limit in decimal.
pub open spec fn prefetch_text(prefetch: Option<u32>) -> Option<Seq<char>> {
    match prefetch {
        Some(n) => Some(decimal(n as nat)),
        None => None,
    }
}

/// The request that opens a job stream.
pub open spec fn take_model(queues: Seq<Seq<char>>, prefetch: Option<u32>) -> RequestModel {
    RequestModel {
        method: Method::Get,
        segments: seq!["jobs"@, "take"@],
        query: opt_param("queue"@, queue_list(queues)) + opt_param(
            "prefetch"@,
            prefetch_text(prefetch),
        ),
        body: None,
    }
}

impl TakeBuilder {
    /// A stream from all queues.
    pub fn new() -> (r: TakeBuilder)
        ensures
            r.queues@.len() == 0,
            r.prefetch is None,
    {
        TakeBuilder { queues: Vec::new(), prefetch: None }
    }

    /// Restricts the stream to the given queues.
    pub fn queues(self, queues: &[&str]) -> (r: TakeBuilder)
        ensures
            texts(r.queues@) == slice_texts(queues@),
            r.prefetch == self.prefetch,
    {
        TakeBuilder { queues: owned(queues), prefetch: self.prefetch }
    }

    /// Sets how many unacknowledged jobs the server sends.
    pub fn prefetch(self, n: u32) -> (r: TakeBuilder)
        ensures
            r == (TakeBuilder { prefetch: Some(n), ..self }),
    {
        TakeBuilder { prefetch: Some(n), ..self }
    }

    /// The request that opens the stream.
    pub fn request(&self) -> (r: Request)
        ensures
            r@ == take_model(texts(self.queues@), self.prefetch),
    {
        let mut query = Params::new();
        query.push_opt(
            "queue",
            if self.queues.len() > 0 {
                Some(join(&self.queues, ","))
            } else {
                None
            },
        );
        query.push_opt(
            "prefetch",
            match self.prefetch {
                Some(n) => Some(decimal_text(n as u64)),
                None => None,
            },
        );
        assert(query@ =~= take_model(texts(self.queues@), self.prefetch).query);
        Request {
            method: Method::Get,
            segments: two_segments("jobs", "take"),
            query: query.pairs,
            body: None,
        }
    }
}

/// A job stream.
pub struct TakeStream {
    pub decoder: StreamDecoder,
    /// Whether the stream has ended: it yields nothing more then.
    pub finished: bool,
}

/// What a stream needs next.
#[derive(Debug)]
pub enum TakeStep {
    /// The given frame has to be decoded.
    Decode(Vec<u8>),
    /// More bytes have to be read.
    Read,
    /// The stream has ended.
    End,
}

/// What came of reading.
#[derive(Debug)]
pub enum Read<'a> {
    /// The next bytes.
    Chunk(&'a [u8]),
    /// The connection broke.
    Failed(reqwest::Error),
    /// The server closed the stream.
    End,
}

/// What a stream yields after reading.
#[derive(Debug)]
pub enum Outcome {
    /// Nothing yet: there may be a frame to decode.
    Continue,
    /// An error, after which the stream has ended.
    Yield(ZizqError),
    /// The end.
    End,
}

impl TakeStream {
    /// A stream whose bytes are framed as `format` has it.
    pub fn new(format: Format) -> (r: TakeStream)
        ensures
            r.decoder.format() == format,
            r.decoder.pending() == Seq::<u8>::empty(),
            !r.finished,
    {
        TakeStream { decoder: StreamDecoder::for_format(format), finished: false }
    }

    /// Decides what the stream needs next: a frame that has arrived is
    /// decoded before more bytes are read.
    pub fn poll_next(&mut self) -> (r: TakeStep)
        ensures
            final(self).finished == old(self).finished,
            final(self).decoder.format() == old(self).decoder.format(),
            old(self).finished ==> r is End && final(self).decoder == old(self).decoder,
            !old(self).finished ==> ({
                let (frame, rest) = next_frame(
                    old(self).decoder.format(),
                    old(self).decoder.pending(),
                );
                &&& final(self).decoder.pending() == rest
                &&& match frame {
                    Some(bytes) => r matches TakeStep::Decode(got) && got@ == bytes,
                    None => r is Read,
                }
            }),
    {
        if self.finished {
            return TakeStep::End;
        }
        match self.decoder.next() {
            DecodeResult::Frame(bytes) => TakeStep::Decode(bytes),
            DecodeResult::NeedMore => TakeStep::Read,
        }
    }

    /// Takes what came of decoding a frame, and yields it. A frame that
    /// does not decode ends the stream.
    pub fn decoded<J>(&mut self, item: Result<J, ZizqError>) -> (r: Result<J, ZizqError>)
        ensures
            r == item,
            final(self).decoder == old(self).decoder,
            final(self).finished == (old(self).finished || item is Err),
    {
        match item {
            Ok(job) => Ok(job),
            Err(e) => {
                self.finished = true;
                Err(e)
            },
        }
    }

    /// Takes what came of reading. A connection that breaks, and bytes of
    /// a frame that never completed, are yielded as an error; either way
    /// the stream has ended.
    pub fn received(&mut self, read: Read) -> (r: Outcome)
        requires
            read matches Read::Chunk(chunk) ==> 2 * (old(self).decoder.pending().len()
                + chunk@.len()) <= isize::MAX,
        ensures
            final(self).decoder.format() == old(self).decoder.format(),
            match read {
                Read::Chunk(chunk) => r is Continue && final(self).finished == old(self).finished
                    && final(self).decoder.pending() == old(self).decoder.pending() + chunk@,
                Read::Failed(e) => r == Outcome::Yield(ZizqError::Transport(e)) && final(
                    self).finished && final(self).decoder == old(self).decoder,
                Read::End => final(self).finished && final(self).decoder.pending() == Seq::<
                    u8,
                >::empty() && if old(self).decoder.pending().len() > 0 {
                    r matches Outcome::Yield(ZizqError::Decode(m)) && m@
                        == "incomplete frame at end of stream"@
                } else {
                    r is End
                },
            },
    {
        match read {
            Read::Chunk(chunk) => {
                self.decoder.feed(chunk);
                Outcome::Continue
            },
            Read::Failed(e) => {
                self.finished = true;
                Outcome::Yield(ZizqError::Transport(e))
            },
            Read::End => {
                self.finished = true;
                match self.decoder.finalize() {
                    Some(e) => Outcome::Yield(e),
                    None => Outcome::End,
                }
            },
        }
    }
}

/// Without queues and without a limit the request has no query at all.
pub proof fn law_bare_take_has_no_query()
    ensures
        take_model(Seq::empty(), None) == plain_request(
            Method::Get,
            seq!["jobs"@, "take"@],
            None,
        ),
{
    assert(take_model(Seq::empty(), None).query =~= Seq::empty());
}

} // verus!
