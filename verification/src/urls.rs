//! URLs: parsing, appending, resolving and taking apart.

use vstd::prelude::*;
use vstd::string::*;
use crate::request::pair_texts;
use crate::text::{opt_text, texts};

verus! {

/// The normalised form of a URL, where it parses.
pub uninterp spec fn parsed_url(raw: Seq<char>) -> Option<Seq<char>>;

/// The URL `base` with path segments appended, where it can have any.
pub uninterp spec fn url_below(base: Seq<char>, segments: Seq<Seq<char>>) -> Option<Seq<char>>;

/// The URL `url` with query parameters appended, where it parses.
pub uninterp spec fn url_with_query(
    url: Seq<char>,
    query: Seq<(Seq<char>, Seq<char>)>,
) -> Option<Seq<char>>;

/// What `path` resolves to against the URL `base`.
pub uninterp spec fn resolved_url(base: Seq<char>, path: Seq<char>) -> Option<Seq<char>>;

/// The host of a URL.
pub uninterp spec fn url_host(url: Seq<char>) -> Option<Seq<char>>;

/// The port of a URL, or the usual one of its scheme.
pub uninterp spec fn url_port(url: Seq<char>) -> Option<u16>;

/// How many characters some texts have together.
pub open spec fn total_len(parts: Seq<Seq<char>>) -> int
    decreases parts.len(),
{
    if parts.len() == 0 {
        0
    } else {
        total_len(parts.drop_last()) + parts.last().len()
    }
}

/// How many characters the names and values of some parameters have
/// together.
pub open spec fn query_len(query: Seq<(Seq<char>, Seq<char>)>) -> int
    decreases query.len(),
{
    if query.len() == 0 {
        0
    } else {
        query_len(query.drop_last()) + query.last().0.len() + query.last().1.len()
    }
}

/// Whether a URL of these parts stays below four gigabytes, each
/// character taking four bytes at most and each byte three characters once
/// encoded.
pub open spec fn url_fits(
    base: Seq<char>,
    segments: Seq<Seq<char>>,
    query: Seq<(Seq<char>, Seq<char>)>,
) -> bool {
    12 * (base.len() + total_len(segments) + segments.len() + query_len(query) + 2 * query.len()
        + 1) <= u32::MAX
}

/// `url::Url::parse`: the normalised form of a URL, or what is wrong with
/// it, by the given text alone.
#[verifier::external_body]
pub(crate) fn parse_url(raw: &str) -> (r: Result<String, url::ParseError>)
    ensures
        r is Ok == parsed_url(raw@) is Some,
        r matches Ok(url) ==> parsed_url(raw@) == Some(url@),
{
    url::Url::parse(raw).map(String::from)
}

/// `PathSegmentsMut::extend` after `pop_if_empty`, on the path of the URL
/// `base`: appends the segments, each encoded. There is no such URL where
/// `base` does not parse or is one that has no path segments. It panics
/// where the URL would exceed four gigabytes.
#[verifier::external_body]
pub(crate) fn append_segments(base: &str, segments: &Vec<String>) -> (r: Option<String>)
    requires
        url_fits(base@, texts(segments@), Seq::empty()),
    ensures
        opt_text(r) == url_below(base@, texts(segments@)),
{
    let mut url = url::Url::parse(base).ok()?;
    url.path_segments_mut().ok()?.pop_if_empty().extend(segments);
    Some(url.into())
}

/// `extend_pairs` of the serializer that `Url::query_pairs_mut` gives, on
/// the URL `url`: appends the parameters in order, each encoded. There is
/// no such URL where `url` does not parse. It panics where the URL would
/// exceed four gigabytes.
#[verifier::external_body]
pub(crate) fn append_query(url: &str, query: &Vec<(String, String)>) -> (r: Option<String>)
    requires
        url_fits(url@, Seq::empty(), pair_texts(query@)),
    ensures
        opt_text(r) == url_with_query(url@, pair_texts(query@)),
{
    let mut url = url::Url::parse(url).ok()?;
    url.query_pairs_mut().extend_pairs(query);
    Some(url.into())
}

/// `url::Url::join`: what `path` resolves to against the URL `base`. A
/// base that does not parse resolves nothing.
#[verifier::external_body]
pub(crate) fn join_url(base: &str, path: &str) -> (r: Result<String, url::ParseError>)
    ensures
        r is Ok == resolved_url(base@, path@) is Some,
        r matches Ok(url) ==> resolved_url(base@, path@) == Some(url@),
{
    url::Url::parse(base)?.join(path).map(String::from)
}

/// `url::Url::host_str`: the host of a URL, where it parses and has one.
#[verifier::external_body]
pub(crate) fn host_of(url: &str) -> (r: Option<String>)
    ensures
        opt_text(r) == url_host(url@),
{
    url::Url::parse(url).ok()?.host_str().map(str::to_owned)
}

/// `url::Url::port_or_known_default`: the port of a URL, where it parses
/// and has one or its scheme has a usual one.
#[verifier::external_body]
pub(crate) fn port_of(url: &str) -> (r: Option<u16>)
    ensures
        r == url_port(url@),
{
    url::Url::parse(url).ok()?.port_or_known_default()
}

proof fn lemma_total_len_grows(parts: Seq<Seq<char>>, k: int)
    requires
        0 <= k <= parts.len(),
    ensures
        0 <= total_len(parts.take(k)) <= total_len(parts),
    decreases parts.len() - k,
{
    if k < parts.len() {
        lemma_total_len_grows(parts, k + 1);
        assert(parts.take(k + 1).drop_last() =~= parts.take(k));
        lemma_total_len_positive(parts.take(k));
    } else {
        assert(parts.take(k) =~= parts);
        lemma_total_len_positive(parts);
    }
}

proof fn lemma_total_len_positive(parts: Seq<Seq<char>>)
    ensures
        total_len(parts) >= 0,
    decreases parts.len(),
{
    if parts.len() > 0 {
        lemma_total_len_positive(parts.drop_last());
    }
}

proof fn lemma_query_len_grows(query: Seq<(Seq<char>, Seq<char>)>, k: int)
    requires
        0 <= k <= query.len(),
    ensures
        0 <= query_len(query.take(k)) <= query_len(query),
    decreases query.len() - k,
{
    if k < query.len() {
        lemma_query_len_grows(query, k + 1);
        assert(query.take(k + 1).drop_last() =~= query.take(k));
        lemma_query_len_positive(query.take(k));
    } else {
        assert(query.take(k) =~= query);
        lemma_query_len_positive(query);
    }
}

proof fn lemma_query_len_positive(query: Seq<(Seq<char>, Seq<char>)>)
    ensures
        query_len(query) >= 0,
    decreases query.len(),
{
    if query.len() > 0 {
        lemma_query_len_positive(query.drop_last());
    }
}

/// A URL that fits with its parameters fits without them.
pub proof fn lemma_fits_without_query(
    base: Seq<char>,
    segments: Seq<Seq<char>>,
    query: Seq<(Seq<char>, Seq<char>)>,
)
    requires
        url_fits(base, segments, query),
    ensures
        url_fits(base, segments, Seq::empty()),
{
    lemma_query_len_positive(query);
}

/// How many characters some texts have together, where it is no more than
/// a URL can have.
fn count_texts(parts: &Vec<String>) -> (r: Option<u64>)
    ensures
        r matches Some(n) ==> n == total_len(texts(parts@)) && n <= u32::MAX,
        r is None ==> total_len(texts(parts@)) > u32::MAX,
{
    let ghost all = texts(parts@);
    let mut n: u64 = 0;
    let mut i: usize = 0;
    assert(all.take(0) =~= Seq::empty());
    while i < parts.len()
        invariant
            all == texts(parts@),
            i <= parts@.len(),
            n <= u32::MAX,
            n == total_len(all.take(i as int)),
        decreases parts@.len() - i,
    {
        let len = parts[i].as_str().unicode_len();
        proof {
            assert(all.take(i + 1).drop_last() =~= all.take(i as int));
            lemma_total_len_grows(all, i + 1);
        }
        if len as u64 > u32::MAX as u64 - n {
            return None;
        }
        n = n + len as u64;
        i += 1;
    }
    assert(all.take(i as int) =~= all);
    Some(n)
}

/// How many characters the names and values of some parameters have
/// together, where it is no more than a URL can have.
fn count_pairs(pairs: &Vec<(String, String)>) -> (r: Option<u64>)
    ensures
        r matches Some(n) ==> n == query_len(pair_texts(pairs@)) && n <= u32::MAX,
        r is None ==> query_len(pair_texts(pairs@)) > u32::MAX,
{
    let ghost all = pair_texts(pairs@);
    let mut n: u64 = 0;
    let mut i: usize = 0;
    assert(all.take(0) =~= Seq::empty());
    while i < pairs.len()
        invariant
            all == pair_texts(pairs@),
            i <= pairs@.len(),
            n <= u32::MAX,
            n == query_len(all.take(i as int)),
        decreases pairs@.len() - i,
    {
        let a = pairs[i].0.as_str().unicode_len();
        let b = pairs[i].1.as_str().unicode_len();
        proof {
            assert(all.take(i + 1).drop_last() =~= all.take(i as int));
            lemma_query_len_grows(all, i + 1);
        }
        let room: u64 = u32::MAX as u64 - n;
        if a as u64 > room || b as u64 > room - a as u64 {
            return None;
        }
        n = n + a as u64 + b as u64;
        i += 1;
    }
    assert(all.take(i as int) =~= all);
    Some(n)
}

/// Whether a URL of these parts stays below four gigabytes.
pub fn fits(base: &str, segments: &Vec<String>, query: &Vec<(String, String)>) -> (r: bool)
    ensures
        r == url_fits(base@, texts(segments@), pair_texts(query@)),
{
    proof {
        lemma_total_len_positive(texts(segments@));
        lemma_query_len_positive(pair_texts(query@));
    }
    let base_len = base.unicode_len();
    let limit: usize = 1_000_000_000;
    if base_len > limit || segments.len() > limit || query.len() > limit {
        return false;
    }
    match (count_texts(segments), count_pairs(query)) {
        (Some(a), Some(b)) => 12 * (base_len as u64 + a + segments.len() as u64 + b + 2
            * query.len() as u64 + 1) <= u32::MAX as u64,
        _ => false,
    }
}

} // verus!
