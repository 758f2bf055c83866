//! API serialization format selection for client/server traffic.

use vstd::prelude::*;
use crate::text::{chars_of, same_text, text_of};

verus! {

/// Serialization format used for both request and response bodies.
#[derive(Debug, Clone, Copy, PartialEq, Eq, Structural)]
pub enum Format {
    /// Standard JSON.
    Json,
    /// MessagePack, the default: a compact binary encoding of the same
    /// logical shape.
    MessagePack,
}

impl Default for Format {
    fn default() -> (r: Format)
        ensures
            r == Format::MessagePack,
    {
        Format::MessagePack
    }
}

/// Whether `c` is white space.
pub open spec fn is_space(c: char) -> bool {
    '\u{9}' <= c <= '\u{d}' || c == ' ' || c == '\u{85}' || c == '\u{a0}' || c == '\u{1680}'
        || '\u{2000}' <= c <= '\u{200a}' || c == '\u{2028}' || c == '\u{2029}' || c == '\u{202f}'
        || c == '\u{205f}' || c == '\u{3000}'
}

/// `s` without leading white space.
pub open spec fn trim_start(s: Seq<char>) -> Seq<char>
    decreases s.len(),
{
    if s.len() > 0 && is_space(s[0]) {
        trim_start(s.drop_first())
    } else {
        s
    }
}

/// `s` without trailing white space.
pub open spec fn trim_end(s: Seq<char>) -> Seq<char>
    decreases s.len(),
{
    if s.len() > 0 && is_space(s.last()) {
        trim_end(s.drop_last())
    } else {
        s
    }
}

/// The part of `s` before the first `;`.
pub open spec fn before_semicolon(s: Seq<char>) -> Seq<char>
    decreases s.len(),
{
    if s.len() == 0 || s[0] == ';' {
        Seq::empty()
    } else {
        seq![s[0]] + before_semicolon(s.drop_first())
    }
}

/// The media type that a `Content-Type` value names, without parameters.
pub open spec fn media_type(s: Seq<char>) -> Seq<char> {
    trim_end(trim_start(before_semicolon(s)))
}

/// The format that a media type stands for.
pub open spec fn format_of(mime: Seq<char>) -> Option<Format> {
    if mime == "application/json"@ || mime == "application/x-ndjson"@ {
        Some(Format::Json)
    } else if mime == "application/msgpack"@ || mime == "application/vnd.zizq.msgpack-stream"@ {
        Some(Format::MessagePack)
    } else {
        None
    }
}

fn space(c: char) -> (r: bool)
    ensures
        r == is_space(c),
{
    ('\u{9}' <= c && c <= '\u{d}') || c == ' ' || c == '\u{85}' || c == '\u{a0}' || c == '\u{1680}'
        || ('\u{2000}' <= c && c <= '\u{200a}') || c == '\u{2028}' || c == '\u{2029}' || c
        == '\u{202f}' || c == '\u{205f}' || c == '\u{3000}'
}

proof fn lemma_before_semicolon(s: Seq<char>, n: int)
    requires
        0 <= n <= s.len(),
        n < s.len() ==> s[n] == ';',
        forall|i: int| 0 <= i < n ==> #[trigger] s[i] != ';',
    ensures
        before_semicolon(s) == s.take(n),
    decreases n,
{
    if n > 0 {
        assert(s[0] != ';');
        let rest = s.drop_first();
        assert forall|i: int| 0 <= i < n - 1 implies #[trigger] rest[i] != ';' by {
            assert(rest[i] == s[i + 1]);
        }
        lemma_before_semicolon(rest, n - 1);
    }
    assert(before_semicolon(s) =~= s.take(n));
}

/// The media type that a `Content-Type` value names.
fn read_media_type(s: &str) -> (r: String)
    ensures
        r@ == media_type(s@),
{
    let chars = chars_of(s);
    let mut end: usize = 0;
    while end < chars.len() && chars[end] != ';'
        invariant
            chars@ == s@,
            end <= chars@.len(),
            forall|i: int| 0 <= i < end ==> #[trigger] s@[i] != ';',
        decreases chars@.len() - end,
    {
        end += 1;
    }
    proof {
        lemma_before_semicolon(s@, end as int);
        assert(s@.take(end as int) =~= s@.subrange(0, end as int));
    }
    let ghost whole = s@.take(end as int);
    let mut start: usize = 0;
    while start < end && space(chars[start])
        invariant
            chars@ == s@,
            start <= end <= chars@.len(),
            trim_start(whole) == trim_start(s@.subrange(start as int, end as int)),
        decreases end - start,
    {
        let ghost cur = s@.subrange(start as int, end as int);
        assert(cur.drop_first() =~= s@.subrange(start + 1, end as int));
        start += 1;
    }
    let ghost trimmed = s@.subrange(start as int, end as int);
    while end > start && space(chars[end - 1])
        invariant
            chars@ == s@,
            start <= end <= chars@.len(),
            trim_end(trimmed) == trim_end(s@.subrange(start as int, end as int)),
        decreases end,
    {
        let ghost cur = s@.subrange(start as int, end as int);
        assert(cur.drop_last() =~= s@.subrange(start as int, end - 1));
        end -= 1;
    }
    text_of(&chars, start, end)
}

impl Format {
    /// Media type of request and response bodies in this format.
    pub open spec fn body_type(&self) -> Seq<char> {
        match *self {
            Format::Json => "application/json"@,
            Format::MessagePack => "application/msgpack"@,
        }
    }

    /// Media type of the job stream in this format.
    pub open spec fn stream_type(&self) -> Seq<char> {
        match *self {
            Format::Json => "application/x-ndjson"@,
            Format::MessagePack => "application/vnd.zizq.msgpack-stream"@,
        }
    }

    /// Content type sent on request/response endpoints.
    pub fn content_type(self) -> (r: &'static str)
        ensures
            r@ == self.body_type(),
    {
        match self {
            Format::Json => "application/json",
            Format::MessagePack => "application/msgpack",
        }
    }

    /// Content type of the streaming endpoint, whose framing differs from
    /// that of a single body.
    pub fn stream_content_type(self) -> (r: &'static str)
        ensures
            r@ == self.stream_type(),
    {
        match self {
            Format::Json => "application/x-ndjson",
            Format::MessagePack => "application/vnd.zizq.msgpack-stream",
        }
    }

    /// Reads a `Content-Type` header value, ignoring media-type
    /// parameters. `None` where the type is not one of ours.
    pub fn from_content_type(s: &str) -> (r: Option<Format>)
        ensures
            r == format_of(media_type(s@)),
    {
        let mime = read_media_type(s);
        let mime = mime.as_str();
        if same_text(mime, "application/json") || same_text(mime, "application/x-ndjson") {
            Some(Format::Json)
        } else if same_text(mime, "application/msgpack") || same_text(
            mime,
            "application/vnd.zizq.msgpack-stream",
        ) {
            Some(Format::MessagePack)
        } else {
            None
        }
    }
}

/// Media-type parameters never change what a `Content-Type` value names.
pub proof fn law_parameters_are_ignored(mime: Seq<char>, parameters: Seq<char>)
    requires
        forall|i: int| 0 <= i < mime.len() ==> #[trigger] mime[i] != ';',
    ensures
        media_type(mime + seq![';'] + parameters) == media_type(mime),
{
    let s = mime + seq![';'] + parameters;
    assert forall|i: int| 0 <= i < mime.len() implies #[trigger] s[i] != ';' by {
        assert(s[i] == mime[i]);
    }
    lemma_before_semicolon(s, mime.len() as int);
    lemma_before_semicolon(mime, mime.len() as int);
    assert(s.take(mime.len() as int) =~= mime.take(mime.len() as int));
}

/// A bare media type is its own name.
proof fn lemma_bare_type(mime: Seq<char>)
    requires
        mime.len() > 0,
        !is_space(mime[0]),
        !is_space(mime.last()),
        forall|i: int| 0 <= i < mime.len() ==> #[trigger] mime[i] != ';',
    ensures
        media_type(mime) == mime,
{
    lemma_before_semicolon(mime, mime.len() as int);
    assert(mime.take(mime.len() as int) =~= mime);
}

/// A format is recognised by both of the content types that it sends.
pub proof fn law_own_content_types_are_recognised(f: Format)
    ensures
        format_of(media_type(f.body_type())) == Some(f),
        format_of(media_type(f.stream_type())) == Some(f),
{
    reveal_strlit("application/json");
    reveal_strlit("application/x-ndjson");
    reveal_strlit("application/msgpack");
    reveal_strlit("application/vnd.zizq.msgpack-stream");
    lemma_bare_type(f.body_type());
    lemma_bare_type(f.stream_type());
    assert("application/json"@.len() == 16);
    assert("application/x-ndjson"@.len() == 20);
    assert("application/msgpack"@.len() == 19);
    assert("application/vnd.zizq.msgpack-stream"@.len() == 35);
}

} // verus!
