//! Framing of the job stream: newline-delimited JSON, and MessagePack
//! records behind a big-endian length.

use bytes::{Buf, BytesMut};
use vstd::prelude::*;
use vstd::slice::*;
use crate::error::ZizqError;
use crate::format::Format;

verus! {

/// `bytes::BytesMut`, a growable byte buffer.
#[verifier::external_type_specification]
#[verifier::external_body]
pub struct ExBytesMut(bytes::BytesMut);

/// The bytes that a buffer holds.
pub uninterp spec fn held(buffer: BytesMut) -> Seq<u8>;

/// `BytesMut::new`: an empty buffer.
pub assume_specification[ bytes::BytesMut::new ]() -> (r: bytes::BytesMut)
    ensures
        held(r) == Seq::<u8>::empty(),
;

/// `BytesMut::len`: the number of bytes held.
pub assume_specification[ bytes::BytesMut::len ](buffer: &bytes::BytesMut) -> (r: usize)
    ensures
        r == held(*buffer).len(),
;

/// `BytesMut::is_empty`: whether no bytes are held.
pub assume_specification[ bytes::BytesMut::is_empty ](buffer: &bytes::BytesMut) -> (r: bool)
    ensures
        r == (held(*buffer).len() == 0),
;

/// `BytesMut::extend_from_slice`: appends the given bytes. It panics where
/// the buffer would grow past what an allocation can have, growing to
/// twice its size at a time.
pub assume_specification[ bytes::BytesMut::extend_from_slice ](
    buffer: &mut bytes::BytesMut,
    extend: &[u8],
)
    requires
        2 * (held(*old(buffer)).len() + extend@.len()) <= isize::MAX,
    ensures
        held(*final(buffer)) == held(*old(buffer)) + extend@,
;

/// `BytesMut::split_to`: takes the first `at` bytes out of the buffer and
/// returns them. It panics where the buffer holds fewer.
pub assume_specification[ bytes::BytesMut::split_to ](
    buffer: &mut bytes::BytesMut,
    at: usize,
) -> (r: bytes::BytesMut)
    requires
        at <= held(*old(buffer)).len(),
    ensures
        held(r) == held(*old(buffer)).take(at as int),
        held(*final(buffer)) == held(*old(buffer)).skip(at as int),
;

/// `BytesMut::clear`: drops every byte held.
pub assume_specification[ bytes::BytesMut::clear ](buffer: &mut bytes::BytesMut)
    ensures
        held(*final(buffer)) == Seq::<u8>::empty(),
;

/// `Buf::advance` of `BytesMut`: drops the first `cnt` bytes. It panics
/// where the buffer holds fewer.
#[verifier::external_body]
fn advance(buffer: &mut BytesMut, cnt: usize)
    requires
        cnt <= held(*old(buffer)).len(),
    ensures
        held(*final(buffer)) == held(*old(buffer)).skip(cnt as int),
{
    buffer.advance(cnt)
}

/// `AsRef<[u8]>` of `BytesMut`: the bytes held, as a slice.
#[verifier::external_body]
fn as_slice(buffer: &BytesMut) -> (r: &[u8])
    ensures
        r@ == held(*buffer),
{
    buffer.as_ref()
}

/// Whether `b` is ASCII white space.
pub open spec fn is_blank(b: u8) -> bool {
    b == 0x20 || b == 0x09 || b == 0x0a || b == 0x0c || b == 0x0d
}

/// Whether `line` holds nothing but white space.
pub open spec fn blank_line(line: Seq<u8>) -> bool {
    forall|i: int| 0 <= i < line.len() ==> is_blank(#[trigger] line[i])
}

/// Index of the first newline, or the number of bytes.
pub open spec fn newline_at(buf: Seq<u8>) -> int
    decreases buf.len(),
{
    if buf.len() == 0 || buf[0] == 0x0a {
        0
    } else {
        1 + newline_at(buf.drop_first())
    }
}

/// `line` without one trailing carriage return.
pub open spec fn strip_cr(line: Seq<u8>) -> Seq<u8> {
    if line.len() > 0 && line.last() == 0x0d {
        line.drop_last()
    } else {
        line
    }
}

/// The first line of `buf` that is not blank, where a newline ends it,
/// and what then stays in the buffer. Blank lines are heartbeats.
pub open spec fn next_line(buf: Seq<u8>) -> (Option<Seq<u8>>, Seq<u8>)
    decreases buf.len(),
    via next_line_ends
{
    let nl = newline_at(buf);
    if nl >= buf.len() {
        (None, buf)
    } else if blank_line(strip_cr(buf.take(nl))) {
        next_line(buf.skip(nl + 1))
    } else {
        (Some(strip_cr(buf.take(nl))), buf.skip(nl + 1))
    }
}

#[via_fn]
proof fn next_line_ends(buf: Seq<u8>) {
    lemma_newline(buf);
}

/// The length that the first four bytes of `buf` announce.
pub open spec fn announced(buf: Seq<u8>) -> int {
    0x1000000 * buf[0] + 0x10000 * buf[1] + 0x100 * buf[2] + buf[3]
}

/// The first record of `buf` that is not empty, where all of it is there,
/// and what then stays in the buffer. Empty records are heartbeats.
pub open spec fn next_record(buf: Seq<u8>) -> (Option<Seq<u8>>, Seq<u8>)
    decreases buf.len(),
{
    if buf.len() < 4 {
        (None, buf)
    } else if announced(buf) == 0 {
        next_record(buf.skip(4))
    } else if buf.len() < 4 + announced(buf) {
        (None, buf)
    } else {
        (Some(buf.subrange(4, 4 + announced(buf))), buf.skip(4 + announced(buf)))
    }
}

/// The next frame of `buf`, and what then stays in the buffer.
pub open spec fn next_frame(format: Format, buf: Seq<u8>) -> (Option<Seq<u8>>, Seq<u8>) {
    match format {
        Format::Json => next_line(buf),
        Format::MessagePack => next_record(buf),
    }
}

pub proof fn lemma_newline(buf: Seq<u8>)
    ensures
        0 <= newline_at(buf) <= buf.len(),
        newline_at(buf) < buf.len() ==> buf[newline_at(buf)] == 0x0a,
        forall|i: int| 0 <= i < newline_at(buf) ==> #[trigger] buf[i] != 0x0a,
    decreases buf.len(),
{
    if buf.len() > 0 && buf[0] != 0x0a {
        let rest = buf.drop_first();
        lemma_newline(rest);
        assert forall|i: int| 0 <= i < newline_at(buf) implies #[trigger] buf[i] != 0x0a by {
            if i > 0 {
                assert(rest[i - 1] == buf[i]);
            }
        }
    }
}

pub proof fn lemma_newline_is(buf: Seq<u8>, n: int)
    requires
        0 <= n <= buf.len(),
        n < buf.len() ==> buf[n] == 0x0a,
        forall|i: int| 0 <= i < n ==> #[trigger] buf[i] != 0x0a,
    ensures
        newline_at(buf) == n,
{
    lemma_newline(buf);
    let m = newline_at(buf);
    if m < n {
        assert(buf[m] == 0x0a);
    } else if n < m {
        assert(buf[n] != 0x0a);
    }
}

/// Outcome of asking a decoder for a frame.
#[derive(Debug)]
pub enum DecodeResult {
    /// A complete frame.
    Frame(Vec<u8>),
    /// The buffer does not hold a complete frame.
    NeedMore,
}

/// Whether `r` is the frame `f`.
pub open spec fn is_frame(r: DecodeResult, f: Option<Seq<u8>>) -> bool {
    match r {
        DecodeResult::Frame(bytes) => f == Some(bytes@),
        DecodeResult::NeedMore => f is None,
    }
}

fn find_newline(bytes: &[u8]) -> (r: usize)
    ensures
        r == newline_at(bytes@),
        r <= bytes@.len(),
{
    let mut i: usize = 0;
    while i < bytes.len() && bytes[i] != 0x0a
        invariant
            i <= bytes@.len(),
            forall|j: int| 0 <= j < i ==> #[trigger] bytes@[j] != 0x0a,
        decreases bytes@.len() - i,
    {
        i += 1;
    }
    proof {
        lemma_newline_is(bytes@, i as int);
    }
    i
}

fn all_blank(line: &[u8]) -> (r: bool)
    ensures
        r == blank_line(line@),
{
    let mut i: usize = 0;
    while i < line.len()
        invariant
            i <= line@.len(),
            forall|j: int| 0 <= j < i ==> is_blank(#[trigger] line@[j]),
        decreases line@.len() - i,
    {
        let b = line[i];
        if !(b == 0x20 || b == 0x09 || b == 0x0a || b == 0x0c || b == 0x0d) {
            assert(!is_blank(line@[i as int]));
            return false;
        }
        i += 1;
    }
    true
}

/// Takes the next line out of the buffer, dropping heartbeats before it.
fn decode_ndjson(buffer: &mut BytesMut) -> (r: DecodeResult)
    ensures
        is_frame(r, next_line(held(*old(buffer))).0),
        held(*final(buffer)) == next_line(held(*old(buffer))).1,
{
    loop
        invariant
            next_line(held(*old(buffer))) == next_line(held(*buffer)),
        decreases held(*buffer).len(),
    {
        let ghost buf = held(*buffer);
        let nl = find_newline(as_slice(buffer));
        if nl >= buffer.len() {
            return DecodeResult::NeedMore;
        }
        let taken = buffer.split_to(nl + 1);
        let mut end = nl;
        if end > 0 && as_slice(&taken)[end - 1] == 0x0d {
            end -= 1;
        }
        let line = slice_subrange(as_slice(&taken), 0, end);
        assert(line@ =~= strip_cr(buf.take(nl as int)));
        if all_blank(line) {
            continue;
        }
        return DecodeResult::Frame(slice_to_vec(line));
    }
}

/// Takes the next record out of the buffer, dropping heartbeats before it.
fn decode_msgpack(buffer: &mut BytesMut) -> (r: DecodeResult)
    ensures
        is_frame(r, next_record(held(*old(buffer))).0),
        held(*final(buffer)) == next_record(held(*old(buffer))).1,
{
    loop
        invariant
            next_record(held(*old(buffer))) == next_record(held(*buffer)),
        decreases held(*buffer).len(),
    {
        let ghost buf = held(*buffer);
        if buffer.len() < 4 {
            return DecodeResult::NeedMore;
        }
        let header = as_slice(buffer);
        let len: usize = (0x1000000 * (header[0] as u32) + 0x10000 * (header[1] as u32) + 0x100 * (
        header[2] as u32) + header[3] as u32) as usize;
        if len == 0 {
            advance(buffer, 4);
            continue;
        }
        if buffer.len() - 4 < len {
            return DecodeResult::NeedMore;
        }
        let _header = buffer.split_to(4);
        let payload = buffer.split_to(len);
        assert(held(payload) =~= buf.subrange(4, 4 + len));
        assert(held(*buffer) =~= buf.skip(4 + len));
        return DecodeResult::Frame(slice_to_vec(as_slice(&payload)));
    }
}

/// Buffered framing decoder: bytes go in by [`StreamDecoder::feed`],
/// frames come out by [`StreamDecoder::next`].
pub enum StreamDecoder {
    Ndjson { buffer: BytesMut },
    Msgpack { buffer: BytesMut },
}

impl StreamDecoder {
    /// The format that is decoded.
    pub open spec fn format(&self) -> Format {
        match *self {
            StreamDecoder::Ndjson { .. } => Format::Json,
            StreamDecoder::Msgpack { .. } => Format::MessagePack,
        }
    }

    /// The bytes that wait to be decoded.
    pub open spec fn pending(&self) -> Seq<u8> {
        match *self {
            StreamDecoder::Ndjson { buffer } => held(buffer),
            StreamDecoder::Msgpack { buffer } => held(buffer),
        }
    }

    /// A decoder for streams in `format`.
    pub fn for_format(format: Format) -> (r: StreamDecoder)
        ensures
            r.format() == format,
            r.pending() == Seq::<u8>::empty(),
    {
        match format {
            Format::Json => StreamDecoder::Ndjson { buffer: BytesMut::new() },
            Format::MessagePack => StreamDecoder::Msgpack { buffer: BytesMut::new() },
        }
    }

    /// How many bytes wait to be decoded.
    pub fn pending_len(&self) -> (r: usize)
        ensures
            r == self.pending().len(),
    {
        match self {
            StreamDecoder::Ndjson { buffer } => buffer.len(),
            StreamDecoder::Msgpack { buffer } => buffer.len(),
        }
    }

    /// Adds the next bytes of the stream.
    pub fn feed(&mut self, chunk: &[u8])
        requires
            2 * (old(self).pending().len() + chunk@.len()) <= isize::MAX,
        ensures
            final(self).format() == old(self).format(),
            final(self).pending() == old(self).pending() + chunk@,
    {
        match self {
            StreamDecoder::Ndjson { buffer } => buffer.extend_from_slice(chunk),
            StreamDecoder::Msgpack { buffer } => buffer.extend_from_slice(chunk),
        }
    }

    /// Takes the next frame, where all of it has arrived.
    pub fn next(&mut self) -> (r: DecodeResult)
        ensures
            final(self).format() == old(self).format(),
            is_frame(r, next_frame(old(self).format(), old(self).pending()).0),
            final(self).pending() == next_frame(old(self).format(), old(self).pending()).1,
    {
        match self {
            StreamDecoder::Ndjson { buffer } => decode_ndjson(buffer),
            StreamDecoder::Msgpack { buffer } => decode_msgpack(buffer),
        }
    }

    /// Closes the decoder at the end of the stream. Bytes of a frame that
    /// never completed are dropped and reported.
    pub fn finalize(&mut self) -> (r: Option<ZizqError>)
        ensures
            final(self).format() == old(self).format(),
            final(self).pending() == Seq::<u8>::empty(),
            r is Some == (old(self).pending().len() > 0),
            r matches Some(e) ==> (e matches ZizqError::Decode(m) && m@
                == "incomplete frame at end of stream"@),
    {
        let buffer = match self {
            StreamDecoder::Ndjson { buffer } => buffer,
            StreamDecoder::Msgpack { buffer } => buffer,
        };
        if buffer.is_empty() {
            assert(held(*buffer) =~= Seq::<u8>::empty());
            return None;
        }
        buffer.clear();
        Some(ZizqError::Decode("incomplete frame at end of stream".to_owned()))
    }
}

} // verus!
