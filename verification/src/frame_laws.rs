//! What the framing of the job stream guarantees, however the bytes of
//! the stream are cut into chunks.

use vstd::prelude::*;
use crate::format::Format;
use crate::frames::{
    announced, blank_line, lemma_newline, lemma_newline_is, newline_at, next_frame, next_line,
    next_record, strip_cr,
};

verus! {

/// A frame leaves fewer bytes behind; no frame leaves no more than there
/// were.
pub proof fn lemma_frame_consumes(format: Format, buf: Seq<u8>)
    ensures
        next_frame(format, buf).1.len() <= buf.len(),
        next_frame(format, buf).0 is Some ==> next_frame(format, buf).1.len() < buf.len(),
    decreases buf.len(),
{
    match format {
        Format::Json => {
            lemma_newline(buf);
            let nl = newline_at(buf);
            if nl < buf.len() {
                lemma_frame_consumes(format, buf.skip(nl + 1));
            }
        },
        Format::MessagePack => {
            if buf.len() >= 4 && announced(buf) == 0 {
                lemma_frame_consumes(format, buf.skip(4));
            }
        },
    }
}

/// A complete frame is the same whatever bytes follow it, and bytes that
/// hold no complete frame can wait for the rest of the stream.
pub proof fn law_later_bytes_do_not_matter(format: Format, buf: Seq<u8>, more: Seq<u8>)
    ensures
        next_frame(format, buf).0 is Some ==> next_frame(format, buf + more) == (
            next_frame(format, buf).0,
            next_frame(format, buf).1 + more,
        ),
        next_frame(format, buf).0 is None ==> next_frame(format, buf + more) == next_frame(
            format,
            next_frame(format, buf).1 + more,
        ),
    decreases buf.len(),
{
    let whole = buf + more;
    match format {
        Format::Json => {
            lemma_newline(buf);
            let nl = newline_at(buf);
            if nl < buf.len() {
                assert forall|i: int| 0 <= i < nl implies #[trigger] whole[i] != 0x0a by {
                    assert(whole[i] == buf[i]);
                }
                lemma_newline_is(whole, nl);
                assert(whole.take(nl) =~= buf.take(nl));
                assert(whole.skip(nl + 1) =~= buf.skip(nl + 1) + more);
                law_later_bytes_do_not_matter(format, buf.skip(nl + 1), more);
            }
        },
        Format::MessagePack => {
            if buf.len() >= 4 {
                assert(announced(whole) == announced(buf));
                let n = announced(buf);
                assert(whole.skip(4) =~= buf.skip(4) + more);
                if n == 0 {
                    law_later_bytes_do_not_matter(format, buf.skip(4), more);
                } else if buf.len() >= 4 + n {
                    assert(whole.subrange(4, 4 + n) =~= buf.subrange(4, 4 + n));
                    assert(whole.skip(4 + n) =~= buf.skip(4 + n) + more);
                }
            }
        },
    }
}

/// All the frames that `buf` holds in full, and the bytes left over.
pub open spec fn all_frames(format: Format, buf: Seq<u8>) -> (Seq<Seq<u8>>, Seq<u8>)
    decreases buf.len(),
    via all_frames_ends
{
    match next_frame(format, buf) {
        (Some(frame), rest) => {
            let (frames, left) = all_frames(format, rest);
            (seq![frame] + frames, left)
        },
        (None, rest) => (Seq::empty(), rest),
    }
}

#[via_fn]
proof fn all_frames_ends(format: Format, buf: Seq<u8>) {
    lemma_frame_consumes(format, buf);
}

/// Decoding what arrived, keeping the rest, and decoding again once more
/// arrives gives the frames of the whole stream: where the stream is cut
/// does not matter.
pub proof fn law_chunking_does_not_matter(format: Format, first: Seq<u8>, second: Seq<u8>)
    ensures
        all_frames(format, first + second).0 == all_frames(format, first).0 + all_frames(
            format,
            all_frames(format, first).1 + second,
        ).0,
        all_frames(format, first + second).1 == all_frames(
            format,
            all_frames(format, first).1 + second,
        ).1,
    decreases first.len(),
{
    law_later_bytes_do_not_matter(format, first, second);
    lemma_frame_consumes(format, first);
    match next_frame(format, first) {
        (Some(frame), rest) => {
            law_chunking_does_not_matter(format, rest, second);
            let later = all_frames(format, all_frames(format, first).1 + second).0;
            assert(seq![frame] + (all_frames(format, rest).0 + later) =~= (seq![frame]
                + all_frames(format, rest).0) + later);
        },
        (None, rest) => {
            let later = all_frames(format, rest + second).0;
            assert(Seq::<Seq<u8>>::empty() + later =~= later);
            // Both sides start from the same next frame.
            assert(next_frame(format, first + second) == next_frame(format, rest + second));
        },
    }
}

/// The four bytes that announce a record of `n` bytes.
pub open spec fn record_header(n: int) -> Seq<u8> {
    seq![
        (n / 0x1000000) as u8,
        (n / 0x10000 % 0x100) as u8,
        (n / 0x100 % 0x100) as u8,
        (n % 0x100) as u8,
    ]
}

/// What was framed as a record comes out as it went in.
pub proof fn law_record_round_trip(payload: Seq<u8>, rest: Seq<u8>)
    requires
        0 < payload.len() <= u32::MAX,
    ensures
        next_record(record_header(payload.len() as int) + payload + rest) == (Some(payload), rest),
{
    let n = payload.len() as int;
    let buf = record_header(n) + payload + rest;
    assert(announced(buf) == n) by {
        assert(buf[0] == record_header(n)[0]);
        assert(buf[1] == record_header(n)[1]);
        assert(buf[2] == record_header(n)[2]);
        assert(buf[3] == record_header(n)[3]);
    }
    assert(buf.subrange(4, 4 + n) =~= payload);
    assert(buf.skip(4 + n) =~= rest);
}

/// What was framed as a line comes out as it went in, whether the line
/// ends in a newline or in a carriage return and a newline. Before a bare
/// newline, a carriage return of the line's own would be taken for part of
/// the ending.
pub proof fn law_line_round_trip(line: Seq<u8>, rest: Seq<u8>)
    requires
        forall|i: int| 0 <= i < line.len() ==> #[trigger] line[i] != 0x0a,
        !blank_line(line),
    ensures
        line.last() != 0x0d ==> next_line(line + seq![0x0au8] + rest) == (Some(line), rest),
        next_line(line + seq![0x0du8, 0x0au8] + rest) == (Some(line), rest),
{
    let n = line.len() as int;
    let a = line + seq![0x0au8] + rest;
    assert forall|i: int| 0 <= i < n implies #[trigger] a[i] != 0x0a by {
        assert(a[i] == line[i]);
    }
    lemma_newline_is(a, n);
    assert(a.take(n) =~= line);
    assert(a.skip(n + 1) =~= rest);
    let b = line + seq![0x0du8, 0x0au8] + rest;
    assert forall|i: int| 0 <= i < n + 1 implies #[trigger] b[i] != 0x0a by {
        if i < n {
            assert(b[i] == line[i]);
        }
    }
    lemma_newline_is(b, n + 1);
    assert(b.take(n + 1) =~= line.push(0x0du8));
    assert(line.push(0x0du8).drop_last() =~= line);
    assert(b.skip(n + 2) =~= rest);
}

/// A heartbeat is never seen: a blank line, or an empty record, in front
/// of a stream changes nothing about the frames that come out.
pub proof fn law_heartbeats_are_skipped(blank: Seq<u8>, rest: Seq<u8>)
    requires
        blank_line(blank),
        forall|i: int| 0 <= i < blank.len() ==> #[trigger] blank[i] != 0x0a,
    ensures
        next_line(blank + seq![0x0au8] + rest) == next_line(rest),
        next_record(seq![0u8, 0u8, 0u8, 0u8] + rest) == next_record(rest),
{
    let n = blank.len() as int;
    let a = blank + seq![0x0au8] + rest;
    assert forall|i: int| 0 <= i < n implies #[trigger] a[i] != 0x0a by {
        assert(a[i] == blank[i]);
    }
    lemma_newline_is(a, n);
    assert(a.take(n) =~= blank);
    assert(blank_line(strip_cr(blank)));
    assert(a.skip(n + 1) =~= rest);
    let b = seq![0u8, 0u8, 0u8, 0u8] + rest;
    assert(announced(b) == 0);
    assert(b.skip(4) =~= rest);
}

/// The bytes of some chunks, one after the other.
pub open spec fn stream_of(chunks: Seq<Seq<u8>>) -> Seq<u8>
    decreases chunks.len(),
{
    if chunks.len() == 0 {
        Seq::empty()
    } else {
        stream_of(chunks.drop_last()) + chunks.last()
    }
}

/// The frames that come out while some chunks are fed one by one, each
/// decoded as far as possible before the next, and the bytes left over.
pub open spec fn fed(format: Format, chunks: Seq<Seq<u8>>) -> (Seq<Seq<u8>>, Seq<u8>)
    decreases chunks.len(),
{
    if chunks.len() == 0 {
        (Seq::empty(), Seq::empty())
    } else {
        let (frames, left) = fed(format, chunks.drop_last());
        let (more, rest) = all_frames(format, left + chunks.last());
        (frames + more, rest)
    }
}

/// However a stream is cut into chunks, the frames that come out are those
/// of the whole stream, in order and once each.
pub proof fn law_stream_yields_every_frame(format: Format, chunks: Seq<Seq<u8>>)
    ensures
        fed(format, chunks) == all_frames(format, stream_of(chunks)),
    decreases chunks.len(),
{
    if chunks.len() == 0 {
        lemma_newline(Seq::empty());
        assert(next_frame(format, Seq::empty()) == (None::<Seq<u8>>, Seq::<u8>::empty()));
    } else {
        law_stream_yields_every_frame(format, chunks.drop_last());
        law_chunking_does_not_matter(format, stream_of(chunks.drop_last()), chunks.last());
    }
}

} // verus!
