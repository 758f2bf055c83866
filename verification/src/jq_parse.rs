//! Parser for jq-compatible paths such as `.foo`, `.foo.bar`, `.foo[0]`,
//! `.[0]` and `.["dotted.key"]`.

use vstd::prelude::*;
use vstd::string::*;
use crate::jq_path::{steps, PathStep, Step};
use crate::text::{
    byte_len, byte_offset, chars_of, concat3, debug_form, debug_text, decimal, decimal_value,
    digits_end, is_digit, lemma_decimal_round_trip, lemma_digits_end, lemma_digits_end_is,
    read_decimal, skip_digits, text_of,
};

verus! {

/// Error returned by [`parse`] when the input is not a valid jq path.
#[derive(Debug, Clone, PartialEq, Eq)]
pub struct PathParseError {
    /// Human-readable description of the failure.
    pub message: String,
    /// Byte offset into the input where the failure was detected.
    pub position: usize,
}

/// What a path text means.
pub enum Parsed {
    /// The steps that the path addresses.
    Steps(Seq<Step>),
    /// What is wrong, and the index of the character where it shows.
    Fault(Seq<char>, int),
}

/// One segment of a path.
pub enum Segment {
    /// A step, and the index of the first character after it.
    Step(Step, int),
    /// A separator dot.
    Dot,
    /// What is wrong, and the index of the character where it shows.
    Fault(Seq<char>, int),
}

/// Outcome of reading the inside of a quoted key.
pub enum Quoted {
    /// The unescaped key, and the index of the closing quote.
    Closed(Seq<char>, int),
    Unterminated,
    /// The index of an escaped character that is outside ASCII.
    BadEscape(int),
}

pub open spec fn is_ascii_char(c: char) -> bool {
    c as u32 <= 0x7f
}

pub open spec fn is_name_start(c: char) -> bool {
    'a' <= c <= 'z' || 'A' <= c <= 'Z' || c == '_'
}

pub open spec fn is_name_cont(c: char) -> bool {
    is_name_start(c) || is_digit(c)
}

/// The first index at or after `i` that does not continue a name.
pub open spec fn name_end(s: Seq<char>, i: int) -> int
    decreases s.len() - i,
{
    if 0 <= i < s.len() && is_name_cont(s[i]) {
        name_end(s, i + 1)
    } else {
        i
    }
}

/// Reads a quoted key from `i` on, `name` being what was read of it. A
/// backslash stands for the character after it, which has to be ASCII.
pub open spec fn quoted_from(s: Seq<char>, i: int, name: Seq<char>) -> Quoted
    decreases s.len() - i,
{
    if i < 0 || i >= s.len() {
        Quoted::Unterminated
    } else if s[i] == '"' {
        Quoted::Closed(name, i)
    } else if s[i] == '\\' && i + 1 < s.len() {
        if is_ascii_char(s[i + 1]) {
            quoted_from(s, i + 2, name.push(s[i + 1]))
        } else {
            Quoted::BadEscape(i + 1)
        }
    } else {
        quoted_from(s, i + 1, name.push(s[i]))
    }
}

/// The segment that starts at `i`.
pub open spec fn segment_at(s: Seq<char>, i: int) -> Segment {
    if s[i] == '[' && i + 1 < s.len() && s[i + 1] == '"' {
        match quoted_from(s, i + 2, Seq::empty()) {
            Quoted::Closed(name, close) => if close + 1 < s.len() && s[close + 1] == ']' {
                Segment::Step(Step::Field(name), close + 2)
            } else {
                Segment::Fault("expected `]` after quoted key"@, close + 1)
            },
            Quoted::Unterminated => Segment::Fault("unterminated quoted key"@, s.len() as int),
            Quoted::BadEscape(at) => Segment::Fault(
                "cannot escape character `"@ + seq![s[at]] + "`"@,
                at,
            ),
        }
    } else if s[i] == '[' {
        let end = digits_end(s, i + 1);
        let digits = s.subrange(i + 1, end);
        if end == i + 1 {
            Segment::Fault("expected digit or quoted key after `[`"@, end)
        } else if end >= s.len() || s[end] != ']' {
            Segment::Fault("expected `]` after array index"@, end)
        } else if decimal_value(digits) > usize::MAX {
            Segment::Fault("invalid array index `"@ + digits + "`"@, i + 1)
        } else {
            Segment::Step(Step::Index(decimal_value(digits) as int), end + 1)
        }
    } else if s[i] == '.' {
        Segment::Dot
    } else if is_name_start(s[i]) {
        let end = name_end(s, i + 1);
        Segment::Step(Step::Field(s.subrange(i, end)), end)
    } else {
        Segment::Fault("unexpected character `"@ + seq![s[i]] + "`"@, i)
    }
}

pub proof fn lemma_name_end(s: Seq<char>, i: int)
    requires
        0 <= i <= s.len(),
    ensures
        i <= name_end(s, i) <= s.len(),
    decreases s.len() - i,
{
    if i < s.len() && is_name_cont(s[i]) {
        lemma_name_end(s, i + 1);
    }
}

pub proof fn lemma_quoted(s: Seq<char>, i: int, name: Seq<char>)
    requires
        0 <= i <= s.len(),
    ensures
        quoted_from(s, i, name) matches Quoted::Closed(_, close) ==> i <= close < s.len()
            && s[close] == '"',
        quoted_from(s, i, name) matches Quoted::BadEscape(at) ==> i < at < s.len(),
    decreases s.len() - i,
{
    if i < s.len() && s[i] != '"' {
        if s[i] == '\\' && i + 1 < s.len() {
            if is_ascii_char(s[i + 1]) {
                lemma_quoted(s, i + 2, name.push(s[i + 1]));
            }
        } else {
            lemma_quoted(s, i + 1, name.push(s[i]));
        }
    }
}

/// A step takes at least one character and ends inside the text.
pub proof fn lemma_segment(s: Seq<char>, i: int)
    requires
        0 <= i < s.len(),
    ensures
        segment_at(s, i) matches Segment::Step(_, next) ==> i < next <= s.len(),
        segment_at(s, i) matches Segment::Fault(_, at) ==> 0 <= at <= s.len(),
{
    if s[i] == '[' && i + 1 < s.len() && s[i + 1] == '"' {
        lemma_quoted(s, i + 2, Seq::empty());
    } else if s[i] == '[' {
        lemma_digits_end(s, i + 1);
    } else if is_name_start(s[i]) {
        lemma_name_end(s, i + 1);
    }
}

/// What the segments from `i` on mean after the steps `done`.
pub open spec fn parsed_from(s: Seq<char>, i: int, done: Seq<Step>) -> Parsed
    decreases s.len() - i,
    via parsed_from_ends
{
    if i < 0 || i >= s.len() {
        Parsed::Steps(done)
    } else {
        match segment_at(s, i) {
            Segment::Step(step, next) => parsed_from(s, next, done.push(step)),
            Segment::Dot => parsed_from(s, i + 1, done),
            Segment::Fault(message, at) => Parsed::Fault(message, at),
        }
    }
}

#[via_fn]
proof fn parsed_from_ends(s: Seq<char>, i: int, done: Seq<Step>) {
    if 0 <= i < s.len() {
        lemma_segment(s, i);
    }
}

/// What the path text `s` means: a leading dot, then segments. The lone
/// dot is the root.
pub open spec fn parsed(s: Seq<char>) -> Parsed {
    if s.len() == 0 {
        Parsed::Fault("path is empty (use `.` for the root)"@, 0)
    } else if s[0] != '.' {
        Parsed::Fault("path must start with `.`, got "@ + debug_form(s), 0)
    } else {
        parsed_from(s, 1, Seq::empty())
    }
}

fn name_start(c: char) -> (r: bool)
    ensures
        r == is_name_start(c),
{
    ('a' <= c && c <= 'z') || ('A' <= c && c <= 'Z') || c == '_'
}

fn name_cont(c: char) -> (r: bool)
    ensures
        r == is_name_cont(c),
{
    name_start(c) || ('0' <= c && c <= '9')
}

/// Outcome of [`read_quoted`].
enum QuotedKey {
    Closed(String, usize),
    Unterminated,
    BadEscape(usize),
}

fn read_quoted(chars: &Vec<char>, from: usize) -> (r: QuotedKey)
    requires
        from <= chars@.len(),
    ensures
        match r {
            QuotedKey::Closed(name, close) => quoted_from(chars@, from as int, Seq::empty())
                == Quoted::Closed(name@, close as int) && from <= close < chars@.len(),
            QuotedKey::Unterminated => quoted_from(
                chars@,
                from as int,
                Seq::empty(),
            ) is Unterminated,
            QuotedKey::BadEscape(at) => quoted_from(chars@, from as int, Seq::empty())
                == Quoted::BadEscape(at as int) && from < at < chars@.len(),
        },
{
    let mut name = String::new();
    let mut i: usize = from;
    while i < chars.len()
        invariant
            from <= i <= chars@.len(),
            quoted_from(chars@, from as int, Seq::empty()) == quoted_from(
                chars@,
                i as int,
                name@,
            ),
        decreases chars@.len() - i,
    {
        let c = chars[i];
        if c == '"' {
            return QuotedKey::Closed(name, i);
        }
        if c == '\\' && chars.len() - i > 1 {
            let escaped = chars[i + 1];
            if escaped as u32 <= 0x7f {
                name.push(escaped);
                i += 2;
            } else {
                return QuotedKey::BadEscape(i + 1);
            }
        } else {
            name.push(c);
            i += 1;
        }
    }
    QuotedKey::Unterminated
}

fn skip_name(chars: &Vec<char>, from: usize) -> (r: usize)
    requires
        from <= chars@.len(),
    ensures
        r == name_end(chars@, from as int),
        from <= r <= chars@.len(),
{
    let mut i: usize = from;
    while i < chars.len() && name_cont(chars[i])
        invariant
            from <= i <= chars@.len(),
            name_end(chars@, from as int) == name_end(chars@, i as int),
        decreases chars@.len() - i,
    {
        i += 1;
    }
    i
}

fn fault(input: &str, chars: &Vec<char>, message: String, at: usize) -> (r: PathParseError)
    requires
        chars@ == input@,
        at <= chars@.len(),
    ensures
        r.message@ == message@,
        r.position == byte_len(input@.take(at as int)),
        r.position <= byte_len(input@),
{
    PathParseError { message, position: byte_offset(input, chars, at) }
}

/// Parses a jq-compatible dotted path.
///
/// The path `.` has no steps; every other path has one [`PathStep`] per
/// addressable segment.
pub fn parse(input: &str) -> (r: Result<Vec<PathStep>, PathParseError>)
    ensures
        match parsed(input@) {
            Parsed::Steps(path) => r matches Ok(found) && steps(found@) == path,
            Parsed::Fault(message, at) => r matches Err(e) && e.message@ == message && e.position
                == byte_len(input@.take(at)),
        },
        r matches Err(e) ==> e.position <= byte_len(input@),
{
    let chars = chars_of(input);
    if chars.len() == 0 {
        return Err(
            fault(input, &chars, "path is empty (use `.` for the root)".to_owned(), 0),
        );
    }
    if chars[0] != '.' {
        let mut message = "path must start with `.`, got ".to_owned();
        message.append(debug_text(input).as_str());
        return Err(fault(input, &chars, message, 0));
    }
    let mut found: Vec<PathStep> = Vec::new();
    let mut i: usize = 1;
    assert(steps(found@) =~= Seq::empty());
    while i < chars.len()
        invariant
            chars@ == input@,
            chars@.len() > 0,
            chars@[0] == '.',
            i <= chars@.len(),
            parsed(input@) == parsed_from(input@, i as int, steps(found@)),
        decreases chars@.len() - i,
    {
        let ghost before = found@;
        let c = chars[i];
        if c == '[' && chars.len() - i > 1 && chars[i + 1] == '"' {
            match read_quoted(&chars, i + 2) {
                QuotedKey::Closed(name, close) => {
                    if chars.len() - close > 1 && chars[close + 1] == ']' {
                        let ghost step = Step::Field(name@);
                        found.push(PathStep::Field(name));
                        assert(steps(found@) =~= steps(before).push(step));
                        i = close + 2;
                    } else {
                        return Err(
                            fault(
                                input,
                                &chars,
                                "expected `]` after quoted key".to_owned(),
                                close + 1,
                            ),
                        );
                    }
                },
                QuotedKey::Unterminated => {
                    return Err(
                        fault(input, &chars, "unterminated quoted key".to_owned(), chars.len()),
                    );
                },
                QuotedKey::BadEscape(at) => {
                    let shown = text_of(&chars, at, at + 1);
                    assert(shown@ =~= seq![chars@[at as int]]);
                    let message = concat3("cannot escape character `", shown.as_str(), "`");
                    return Err(fault(input, &chars, message, at));
                },
            }
        } else if c == '[' {
            let start = i + 1;
            let end = skip_digits(&chars, start);
            if end == start {
                return Err(
                    fault(
                        input,
                        &chars,
                        "expected digit or quoted key after `[`".to_owned(),
                        end,
                    ),
                );
            }
            if end >= chars.len() || chars[end] != ']' {
                return Err(
                    fault(input, &chars, "expected `]` after array index".to_owned(), end),
                );
            }
            let digits = text_of(&chars, start, end);
            proof {
                lemma_digits_end(chars@, start as int);
            }
            match read_decimal(&chars_of(digits.as_str()), usize::MAX as u64) {
                Some(n) => {
                    found.push(PathStep::Index(n as usize));
                    assert(steps(found@) =~= steps(before).push(Step::Index(n as int)));
                    i = end + 1;
                },
                None => {
                    let message = concat3("invalid array index `", digits.as_str(), "`");
                    return Err(fault(input, &chars, message, start));
                },
            }
        } else if c == '.' {
            i += 1;
        } else if name_start(c) {
            let end = skip_name(&chars, i + 1);
            let name = text_of(&chars, i, end);
            let ghost step = Step::Field(name@);
            found.push(PathStep::Field(name));
            assert(steps(found@) =~= steps(before).push(step));
            i = end;
        } else {
            let shown = text_of(&chars, i, i + 1);
            assert(shown@ =~= seq![c]);
            let message = concat3("unexpected character `", shown.as_str(), "`");
            return Err(fault(input, &chars, message, i));
        }
    }
    Ok(found)
}

impl PathParseError {
    /// The error as a line of text.
    pub fn to_text(&self) -> (r: String)
        ensures
            r@ == self.message@ + " (at position "@ + decimal(self.position as nat) + ")"@,
    {
        let mut out = self.message.clone();
        out.append(" (at position ");
        out.append(crate::text::decimal_text(self.position as u64).as_str());
        out.append(")");
        out
    }
}

/// `key` with each quote and backslash escaped by a backslash.
pub open spec fn escaped(key: Seq<char>) -> Seq<char>
    decreases key.len(),
{
    if key.len() == 0 {
        Seq::empty()
    } else if key[0] == '"' || key[0] == '\\' {
        seq!['\\', key[0]] + escaped(key.drop_first())
    } else {
        seq![key[0]] + escaped(key.drop_first())
    }
}

/// Whether `key` can stand in a path as it is, without brackets and quotes.
pub open spec fn is_name(key: Seq<char>) -> bool {
    key.len() > 0 && is_name_start(key[0]) && forall|k: int|
        1 <= k < key.len() ==> is_name_cont(#[trigger] key[k])
}

/// Whether `step` is written as a name behind a dot, where `plain` asks for
/// that.
pub open spec fn dotted(step: Step, plain: bool) -> bool {
    plain && (step matches Step::Field(key) && is_name(key))
}

/// A path segment that addresses `step`: `.key` where `plain` asks for it
/// and `key` is a name, `["key"]` or `[0]` otherwise.
pub open spec fn segment_text(step: Step, plain: bool) -> Seq<char> {
    match step {
        Step::Field(key) => if dotted(step, plain) {
            seq!['.'] + key
        } else {
            seq!['[', '"'] + escaped(key) + seq!['"', ']']
        },
        Step::Index(i) => seq!['['] + decimal(i as nat) + seq![']'],
    }
}

/// The segments that address `path`, one after the other; `plain` says of
/// each how it is spelled.
pub open spec fn segments_text(path: Seq<Step>, plain: Seq<bool>) -> Seq<char>
    decreases path.len(),
{
    if path.len() == 0 {
        Seq::empty()
    } else {
        segment_text(path[0], plain[0]) + segments_text(path.drop_first(), plain.drop_first())
    }
}

/// A path text that addresses `path`, such as `.foo["a b"][0].bar`. It
/// starts with a dot; the dot of a leading name is that one.
pub open spec fn path_text(path: Seq<Step>, plain: Seq<bool>) -> Seq<char> {
    if path.len() > 0 && dotted(path[0], plain[0]) {
        segments_text(path, plain)
    } else {
        seq!['.'] + segments_text(path, plain)
    }
}

proof fn lemma_quoted_reads(s: Seq<char>, i: int, key: Seq<char>, name: Seq<char>)
    requires
        0 <= i,
        i + escaped(key).len() < s.len(),
        s.subrange(i, i + escaped(key).len()) == escaped(key),
        s[i + escaped(key).len()] == '"',
    ensures
        quoted_from(s, i, name) == Quoted::Closed(name + key, i + escaped(key).len()),
    decreases key.len(),
{
    let text = escaped(key);
    if key.len() == 0 {
        assert(name + key =~= name);
    } else {
        let rest = key.drop_first();
        let used: int = if key[0] == '"' || key[0] == '\\' {
            2
        } else {
            1
        };
        assert(s[i] == text[0]) by {
            assert(s.subrange(i, i + text.len())[0] == s[i]);
        }
        if used == 2 {
            assert(s[i + 1] == text[1]) by {
                assert(s.subrange(i, i + text.len())[1] == s[i + 1]);
            }
        }
        assert(text.len() == used + escaped(rest).len());
        assert(s.subrange(i + used, i + text.len()) =~= s.subrange(i, i + text.len()).skip(used));
        assert(text.skip(used) =~= escaped(rest));
        lemma_quoted_reads(s, i + used, rest, name.push(key[0]));
        assert(name.push(key[0]) + rest =~= name + key);
    }
}

proof fn lemma_name_end_is(s: Seq<char>, i: int, end: int)
    requires
        0 <= i <= end <= s.len(),
        forall|k: int| i <= k < end ==> is_name_cont(#[trigger] s[k]),
        end < s.len() ==> !is_name_cont(s[end]),
    ensures
        name_end(s, i) == end,
    decreases end - i,
{
    if i < end {
        lemma_name_end_is(s, i + 1, end);
    }
}

/// Segments start with a dot or a bracket.
proof fn lemma_segments_start(path: Seq<Step>, plain: Seq<bool>)
    ensures
        path.len() > 0 ==> segments_text(path, plain).len() > 0 && (segments_text(path, plain)[0]
            == '.' || segments_text(path, plain)[0] == '['),
{
}

/// A name behind a dot reads back as that name.
proof fn lemma_name_reads(s: Seq<char>, i: int, key: Seq<char>)
    requires
        0 <= i,
        is_name(key),
        i + key.len() <= s.len(),
        s.subrange(i, i + key.len()) == key,
        i + key.len() < s.len() ==> !is_name_cont(s[i + key.len()]),
    ensures
        segment_at(s, i) == Segment::Step(Step::Field(key), i + key.len()),
{
    assert forall|k: int| i <= k < i + key.len() implies is_name_cont(#[trigger] s[k]) by {
        assert(s.subrange(i, i + key.len())[k - i] == s[k]);
        assert(key[k - i] == s[k]);
    }
    assert(s.subrange(i, i + key.len())[0] == s[i]);
    lemma_name_end_is(s, i + 1, i + key.len());
}

/// The bracketed text of a step reads back as that step.
proof fn lemma_segment_reads(s: Seq<char>, i: int, step: Step, plain: bool)
    requires
        0 <= i,
        !dotted(step, plain),
        i + segment_text(step, plain).len() <= s.len(),
        s.subrange(i, i + segment_text(step, plain).len()) == segment_text(step, plain),
        step matches Step::Index(n) ==> 0 <= n <= usize::MAX,
    ensures
        segment_at(s, i) == Segment::Step(step, i + segment_text(step, plain).len()),
{
    let text = segment_text(step, plain);
    let got = s.subrange(i, i + text.len());
    assert(got[0] == s[i]);
    match step {
        Step::Field(key) => {
            let inner = escaped(key);
            assert(got[1] == s[i + 1]);
            assert(s.subrange(i + 2, i + 2 + inner.len()) =~= got.subrange(
                2,
                2 + inner.len() as int,
            ));
            assert(text.subrange(2, 2 + inner.len() as int) =~= inner);
            assert(got[2 + inner.len() as int] == s[i + 2 + inner.len()]);
            assert(got[3 + inner.len() as int] == s[i + 3 + inner.len()]);
            lemma_quoted_reads(s, i + 2, key, Seq::empty());
            assert(Seq::<char>::empty() + key =~= key);
        },
        Step::Index(n) => {
            let digits = decimal(n as nat);
            lemma_decimal_round_trip(n as nat);
            let end = i + 1 + digits.len();
            assert(s.subrange(i + 1, end) =~= got.subrange(1, 1 + digits.len() as int));
            assert(text.subrange(1, 1 + digits.len() as int) =~= digits);
            assert(s.subrange(i + 1, end) == digits);
            assert(got[1 + digits.len() as int] == s[end]);
            assert(s[end] == ']');
            assert(is_digit(digits[0]) && digits[0] == s[i + 1]) by {
                assert(s.subrange(i + 1, end)[0] == s[i + 1]);
            }
            lemma_digits_end_is(s, i + 1, end);
        },
    }
}

proof fn lemma_segments_read(
    s: Seq<char>,
    i: int,
    done: Seq<Step>,
    path: Seq<Step>,
    plain: Seq<bool>,
)
    requires
        0 <= i <= s.len(),
        s.skip(i) == segments_text(path, plain),
        path.len() == plain.len(),
        forall|k: int|
            0 <= k < path.len() ==> ((#[trigger] path[k]) matches Step::Index(n) ==> 0 <= n
                <= usize::MAX),
    ensures
        parsed_from(s, i, done) == Parsed::Steps(done + path),
    decreases path.len(),
{
    if path.len() == 0 {
        assert(s.skip(i).len() == 0);
        assert(done + path =~= done);
    } else {
        let text = segment_text(path[0], plain[0]);
        let rest = path.drop_first();
        let spelling = plain.drop_first();
        let next = i + text.len();
        assert(s.skip(i).len() == s.len() - i);
        assert(s.subrange(i, next) =~= s.skip(i).take(text.len() as int));
        assert(segments_text(path, plain).take(text.len() as int) =~= text);
        assert(s.skip(next) =~= s.skip(i).skip(text.len() as int));
        assert(segments_text(path, plain).skip(text.len() as int) =~= segments_text(
            rest,
            spelling,
        ));
        assert forall|k: int| 0 <= k < rest.len() implies ((#[trigger] rest[k]) matches Step::Index(
            n,
        ) ==> 0 <= n <= usize::MAX) by {
            assert(rest[k] == path[k + 1]);
        }
        if dotted(path[0], plain[0]) {
            let key = path[0]->Field_0;
            assert(s.subrange(i, next)[0] == s[i]);
            assert(s.subrange(i + 1, next) =~= s.subrange(i, next).skip(1));
            assert(text.skip(1) =~= key);
            if next < s.len() {
                assert(s.skip(next)[0] == s[next]);
                lemma_segments_start(rest, spelling);
            }
            lemma_name_reads(s, i + 1, key);
            assert(segment_at(s, i) is Dot);
            assert(parsed_from(s, i, done) == parsed_from(s, i + 1, done));
            assert(next == i + 1 + key.len());
            assert(parsed_from(s, i + 1, done) == parsed_from(s, next, done.push(path[0])));
        } else {
            lemma_segment_reads(s, i, path[0], plain[0]);
        }
        lemma_segments_read(s, next, done.push(path[0]), rest, spelling);
        assert(done.push(path[0]) + rest =~= done + path);
    }
}

/// Every sequence of steps can be written as a path, with brackets or, where
/// a key is a name, with a dot, and that path parses to exactly those steps.
pub proof fn law_path_text_parses_back(path: Seq<Step>, plain: Seq<bool>)
    requires
        path.len() == plain.len(),
        forall|k: int|
            0 <= k < path.len() ==> ((#[trigger] path[k]) matches Step::Index(n) ==> 0 <= n
                <= usize::MAX),
    ensures
        parsed(path_text(path, plain)) == Parsed::Steps(path),
{
    let s = path_text(path, plain);
    assert(Seq::<Step>::empty() + path =~= path);
    if path.len() > 0 && dotted(path[0], plain[0]) {
        assert(s.skip(0) =~= s);
        lemma_segments_read(s, 0, Seq::empty(), path, plain);
        lemma_segments_start(path, plain);
        assert(s[0] == '.' && segment_at(s, 0) is Dot);
    } else {
        assert(s.skip(1) =~= segments_text(path, plain));
        lemma_segments_read(s, 1, Seq::empty(), path, plain);
    }
}

} // verus!
