//! What a job stream yields from the bytes that it is given.

use vstd::prelude::*;
use vstd::string::*;
use crate::error::ZizqError;
use crate::format::Format;
use crate::frame_laws::{
    law_heartbeats_are_skipped, law_later_bytes_do_not_matter, law_line_round_trip,
    law_record_round_trip, record_header,
};
use crate::frames::{announced, blank_line, lemma_newline_is, DecodeResult, StreamDecoder};
use crate::take::{Outcome, Read, TakeBuilder, TakeStep, TakeStream};
use crate::text::{slice_texts, texts};

verus! {

/// The four bytes, highest first, of a length.
pub open spec fn length_bytes(n: int) -> Seq<u8> {
    seq![
        (n / 0x1000000) as u8,
        (n / 0x10000 % 0x100) as u8,
        (n / 0x100 % 0x100) as u8,
        (n % 0x100) as u8,
    ]
}

/// A record that is announced by its length comes out as it went in, and
/// what follows it stays.
pub proof fn law_record_comes_out_whole(
    d: &mut StreamDecoder,
    record: Seq<u8>,
    rest: Seq<u8>,
    r: DecodeResult,
)
    requires
        *old(d) is Msgpack,
        0 < record.len() <= u32::MAX,
        old(d).pending() == length_bytes(record.len() as int) + record + rest,
        call_ensures(StreamDecoder::next, (d,), r),
    ensures
        r matches DecodeResult::Frame(bytes) && bytes@ == record,
        final(d).pending() == rest,
        *final(d) is Msgpack,
{
    assert(length_bytes(record.len() as int) =~= record_header(record.len() as int));
    law_record_round_trip(record, rest);
}

/// A record that has not arrived in full is waited for, and no byte of it is
/// lost.
pub proof fn law_unfinished_record_is_waited_for(
    d: &mut StreamDecoder,
    n: int,
    part: Seq<u8>,
    r: DecodeResult,
)
    requires
        *old(d) is Msgpack,
        0 < n <= u32::MAX,
        part.len() < n,
        old(d).pending() == length_bytes(n) + part || (old(d).pending().len() < 4),
        call_ensures(StreamDecoder::next, (d,), r),
    ensures
        r is NeedMore,
        final(d).pending() == old(d).pending(),
{
    let buf = old(d).pending();
    if buf.len() >= 4 {
        assert(buf[0] == length_bytes(n)[0]);
        assert(buf[1] == length_bytes(n)[1]);
        assert(buf[2] == length_bytes(n)[2]);
        assert(buf[3] == length_bytes(n)[3]);
        assert(announced(buf) == n);
    }
}

/// A record without bytes keeps the connection alive and is skipped.
pub proof fn law_empty_record_is_skipped(
    d: &mut StreamDecoder,
    record: Seq<u8>,
    rest: Seq<u8>,
    r: DecodeResult,
)
    requires
        *old(d) is Msgpack,
        0 < record.len() <= u32::MAX,
        old(d).pending() == seq![0u8, 0u8, 0u8, 0u8] + (length_bytes(record.len() as int) + record
            + rest),
        call_ensures(StreamDecoder::next, (d,), r),
    ensures
        r matches DecodeResult::Frame(bytes) && bytes@ == record,
        final(d).pending() == rest,
{
    assert(length_bytes(record.len() as int) =~= record_header(record.len() as int));
    law_record_round_trip(record, rest);
    law_heartbeats_are_skipped(
        Seq::empty(),
        length_bytes(record.len() as int) + record + rest,
    );
}

/// Whether a byte is white space in a line: a space, a tab, a form feed or a
/// carriage return.
pub open spec fn is_white(b: u8) -> bool {
    b == 0x20 || b == 0x09 || b == 0x0c || b == 0x0d
}

proof fn lemma_blank(line: Seq<u8>)
    requires
        forall|i: int| 0 <= i < line.len() ==> #[trigger] line[i] != 0x0a,
    ensures
        blank_line(line) == (forall|i: int| 0 <= i < line.len() ==> is_white(#[trigger] line[i])),
{
    if blank_line(line) {
        assert forall|i: int| 0 <= i < line.len() implies is_white(#[trigger] line[i]) by {}
    }
}

/// A line comes out as it went in, without the newline or the carriage
/// return and newline that end it, and what follows it stays.
pub proof fn law_line_comes_out_whole(
    d: &mut StreamDecoder,
    line: Seq<u8>,
    rest: Seq<u8>,
    k: int,
    r: DecodeResult,
)
    requires
        *old(d) is Ndjson,
        forall|i: int| 0 <= i < line.len() ==> #[trigger] line[i] != 0x0a,
        0 <= k < line.len(),
        !is_white(line[k]),
        old(d).pending() == line + seq![0x0du8, 0x0au8] + rest || (line.last() != 0x0d
            && old(d).pending() == line + seq![0x0au8] + rest),
        call_ensures(StreamDecoder::next, (d,), r),
    ensures
        r matches DecodeResult::Frame(bytes) && bytes@ == line,
        final(d).pending() == rest,
        *final(d) is Ndjson,
{
    lemma_blank(line);
    assert(!is_white(line[k]));
    law_line_round_trip(line, rest);
}

/// A line that no newline ended yet is waited for, and no byte of it is lost.
pub proof fn law_unfinished_line_is_waited_for(d: &mut StreamDecoder, r: DecodeResult)
    requires
        *old(d) is Ndjson,
        forall|i: int| 0 <= i < old(d).pending().len() ==> #[trigger] old(d).pending()[i] != 0x0a,
        call_ensures(StreamDecoder::next, (d,), r),
    ensures
        r is NeedMore,
        final(d).pending() == old(d).pending(),
{
    lemma_newline_is(old(d).pending(), old(d).pending().len() as int);
}

/// A line of nothing but white space keeps the connection alive and is
/// skipped.
pub proof fn law_blank_line_is_skipped(
    d: &mut StreamDecoder,
    blank: Seq<u8>,
    line: Seq<u8>,
    rest: Seq<u8>,
    k: int,
    r: DecodeResult,
)
    requires
        *old(d) is Ndjson,
        forall|i: int| 0 <= i < blank.len() ==> is_white(#[trigger] blank[i]),
        forall|i: int| 0 <= i < line.len() ==> #[trigger] line[i] != 0x0a,
        0 <= k < line.len(),
        !is_white(line[k]),
        line.last() != 0x0d,
        old(d).pending() == blank + seq![0x0au8] + (line + seq![0x0au8] + rest),
        call_ensures(StreamDecoder::next, (d,), r),
    ensures
        r matches DecodeResult::Frame(bytes) && bytes@ == line,
        final(d).pending() == rest,
{
    lemma_blank(line);
    assert(!is_white(line[k]));
    lemma_blank(blank);
    law_line_round_trip(line, rest);
    law_heartbeats_are_skipped(blank, line + seq![0x0au8] + rest);
}

/// Bytes that are fed wait behind those before them, and a decoder starts
/// with none, for the format that it was made for.
pub proof fn law_fed_bytes_wait_in_order(
    d: &mut StreamDecoder,
    chunk: &[u8],
    format: Format,
    fresh: StreamDecoder,
)
    requires
        call_ensures(StreamDecoder::feed, (d, chunk), ()),
        call_ensures(StreamDecoder::for_format, (format,), fresh),
    ensures
        final(d).pending() == old(d).pending() + chunk@,
        *final(d) is Msgpack == *old(d) is Msgpack,
        fresh.pending().len() == 0,
        format == Format::Json ==> fresh is Ndjson,
        format == Format::MessagePack ==> fresh is Msgpack,
{
}

/// A frame that is complete comes out the same whatever bytes follow it.
pub proof fn law_frame_does_not_wait_for_more(
    d: &mut StreamDecoder,
    e: &mut StreamDecoder,
    more: Seq<u8>,
    r: DecodeResult,
    s: DecodeResult,
)
    requires
        *old(d) is Msgpack == *old(e) is Msgpack,
        old(e).pending() == old(d).pending() + more,
        call_ensures(StreamDecoder::next, (d,), r),
        call_ensures(StreamDecoder::next, (e,), s),
    ensures
        r matches DecodeResult::Frame(a) ==> (s matches DecodeResult::Frame(b) && a@ == b@
            && final(e).pending() == final(d).pending() + more),
{
    law_later_bytes_do_not_matter(old(d).format(), old(d).pending(), more);
}

/// At the end of a stream, bytes of a frame that never completed are an
/// error and gone; where none wait all is well.
pub proof fn law_leftover_bytes_are_an_error(d: &mut StreamDecoder, r: Option<ZizqError>)
    requires
        call_ensures(StreamDecoder::finalize, (d,), r),
    ensures
        final(d).pending().len() == 0,
        r is Some == (old(d).pending().len() > 0),
        r matches Some(e) ==> (e matches ZizqError::Decode(m) && m@
            == "incomplete frame at end of stream"@),
{
}

/// A stream that ended yields nothing more. Before that, a frame that has
/// arrived is decoded before more is read, exactly as the decoder gives it.
pub proof fn law_stream_decodes_before_it_reads(
    t: &mut TakeStream,
    d: &mut StreamDecoder,
    r: TakeStep,
    frame: DecodeResult,
)
    requires
        call_ensures(TakeStream::poll_next, (t,), r),
        *old(d) == old(t).decoder,
        call_ensures(StreamDecoder::next, (d,), frame),
    ensures
        final(t).finished == old(t).finished,
        old(t).finished ==> r is End && final(t).decoder == old(t).decoder,
        !old(t).finished ==> (frame matches DecodeResult::Frame(bytes) ==> (
        r matches TakeStep::Decode(got) && got@ == bytes@)),
        !old(t).finished && frame is NeedMore ==> r is Read,
        !old(t).finished ==> final(t).decoder.pending() == final(d).pending(),
{
}

/// A frame that decoded is yielded and the stream goes on; one that did not
/// is yielded as its error, and ends the stream.
pub proof fn law_decoded_frame_is_yielded<J>(
    t: &mut TakeStream,
    item: Result<J, ZizqError>,
    r: Result<J, ZizqError>,
)
    requires
        call_ensures(TakeStream::decoded::<J>, (t, item), r),
    ensures
        r == item,
        final(t).decoder == old(t).decoder,
        item is Ok ==> final(t).finished == old(t).finished,
        item is Err ==> final(t).finished,
{
}

/// Bytes that arrive wait behind those before them. A connection that breaks
/// is yielded as that error; the end of the stream is well where nothing
/// waits and an error where bytes do. Either way the stream has ended.
pub proof fn law_reading_goes_on_or_ends(t: &mut TakeStream, read: Read, r: Outcome)
    requires
        call_ensures(TakeStream::received, (t, read), r),
    ensures
        read matches Read::Chunk(chunk) ==> r is Continue && final(t).finished == old(t).finished
            && final(t).decoder.pending() == old(t).decoder.pending() + chunk@,
        read matches Read::Failed(e) ==> r == Outcome::Yield(ZizqError::Transport(e))
            && final(t).finished,
        read is End ==> final(t).finished,
        read is End && old(t).decoder.pending().len() == 0 ==> r is End,
        read is End && old(t).decoder.pending().len() > 0 ==> r matches Outcome::Yield(
            ZizqError::Decode(_),
        ),
{
}

/// A stream starts with nothing read, for the format that it was made for.
pub proof fn law_stream_starts_empty(format: Format, t: TakeStream)
    requires
        call_ensures(TakeStream::new, (format,), t),
    ensures
        !t.finished,
        t.decoder.pending().len() == 0,
        format == Format::Json ==> t.decoder is Ndjson,
        format == Format::MessagePack ==> t.decoder is Msgpack,
{
}

/// What is set on a stream's builder is what it has, and setting one thing
/// changes nothing else.
pub proof fn law_stream_settings(
    b: TakeBuilder,
    queues: &[&str],
    n: u32,
    set: TakeBuilder,
)
    ensures
        call_ensures(TakeBuilder::queues, (b, queues), set) ==> set.prefetch == b.prefetch
            && set.queues@.len() == queues@.len() && forall|i: int|
            0 <= i < queues@.len() ==> (#[trigger] set.queues@[i])@ == queues@[i]@,
        call_ensures(TakeBuilder::prefetch, (b, n), set) ==> set == (TakeBuilder {
            prefetch: Some(n),
            ..b
        }),
        call_ensures(TakeBuilder::new, (), set) ==> set.queues@.len() == 0 && set.prefetch is None,
{
    if call_ensures(TakeBuilder::queues, (b, queues), set) {
        assert(texts(set.queues@).len() == set.queues@.len());
        assert(slice_texts(queues@).len() == queues@.len());
        assert forall|i: int| 0 <= i < queues@.len() implies (#[trigger] set.queues@[i])@
            == queues@[i]@ by {
            assert(texts(set.queues@)[i] == set.queues@[i]@);
            assert(slice_texts(queues@)[i] == queues@[i]@);
        }
    }
}

} // verus!
