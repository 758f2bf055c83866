//! Uniqueness keys used to deduplicate jobs at enqueue time.

use sha2::Digest;
use vstd::prelude::*;
use vstd::string::*;
use vstd::utf8::*;
use crate::json::{distinct_keys, same_json, Json, Value};
use crate::json_laws::law_canonical_ignores_key_order;
use crate::json_text::{canonical, write_canonical};
use crate::text::{concat3, hex_char, same_text};

verus! {

/// The lifecycle window during which a [`UniqueKey`] prevents duplicate
/// enqueues.
#[derive(Debug, Clone, Copy, PartialEq, Eq, Structural)]
pub enum UniqueScope {
    /// While the job is scheduled or ready.
    Queued,
    /// While the job is scheduled, ready or in flight.
    Active,
    /// For as long as the job exists on the server.
    Exists,
    /// A scope that this version of the client does not recognise.
    Unknown,
}

impl UniqueScope {
    /// The name of this scope in the API.
    pub open spec fn name(&self) -> Seq<char> {
        match *self {
            UniqueScope::Queued => "queued"@,
            UniqueScope::Active => "active"@,
            UniqueScope::Exists => "exists"@,
            UniqueScope::Unknown => "unknown"@,
        }
    }

    /// The scope that a name in the API stands for.
    pub open spec fn named(name: Seq<char>) -> UniqueScope {
        if name == "queued"@ {
            UniqueScope::Queued
        } else if name == "active"@ {
            UniqueScope::Active
        } else if name == "exists"@ {
            UniqueScope::Exists
        } else {
            UniqueScope::Unknown
        }
    }

    /// The name of this scope in the API.
    pub fn as_str(&self) -> (r: &'static str)
        ensures
            r@ == self.name(),
    {
        match self {
            UniqueScope::Queued => "queued",
            UniqueScope::Active => "active",
            UniqueScope::Exists => "exists",
            UniqueScope::Unknown => "unknown",
        }
    }

    /// Reads a scope from its name in the API. A name that is not known
    /// is no failure: it becomes [`UniqueScope::Unknown`].
    pub fn from_name(name: &str) -> (r: UniqueScope)
        ensures
            r == UniqueScope::named(name@),
    {
        if same_text(name, "queued") {
            UniqueScope::Queued
        } else if same_text(name, "active") {
            UniqueScope::Active
        } else if same_text(name, "exists") {
            UniqueScope::Exists
        } else {
            UniqueScope::Unknown
        }
    }
}

/// A scope is read back from its own name.
pub proof fn law_scope_name_round_trip(scope: UniqueScope)
    ensures
        UniqueScope::named(scope.name()) == scope,
{
    reveal_strlit("queued");
    reveal_strlit("active");
    reveal_strlit("exists");
    reveal_strlit("unknown");
    assert("queued"@[0] != "active"@[0]);
    assert("queued"@[0] != "exists"@[0]);
    assert("queued"@[0] != "unknown"@[0]);
    assert("active"@[0] != "exists"@[0]);
    assert("active"@[0] != "unknown"@[0]);
    assert("exists"@[0] != "unknown"@[0]);
}

/// A uniqueness key sent with an enqueue request.
#[derive(Debug, Clone, PartialEq, Eq)]
pub struct UniqueKey {
    /// Raw string key.
    pub key: String,
    /// Lifecycle scope for which the uniqueness is enforced.
    pub scope: Option<UniqueScope>,
}

/// The SHA-256 digest of some bytes.
pub uninterp spec fn sha256(data: Seq<u8>) -> Seq<u8>;

/// `sha2::Sha256::digest`: the 32-byte SHA-256 digest of the given bytes,
/// which depends on those bytes alone.
#[verifier::external_body]
fn sha256_digest(data: &[u8]) -> (r: Vec<u8>)
    ensures
        r@ == sha256(data@),
        r@.len() == 32,
{
    sha2::Sha256::digest(data).to_vec()
}

/// The lowercase hexadecimal form of some bytes, two digits per byte.
pub open spec fn hex(bytes: Seq<u8>) -> Seq<char> {
    Seq::new(
        2 * bytes.len(),
        |i: int|
            if i % 2 == 0 {
                hex_char(bytes[i / 2] as int / 16)
            } else {
                hex_char(bytes[i / 2] as int % 16)
            },
    )
}

/// The hash of a JSON value: the hexadecimal SHA-256 digest of its
/// canonical text.
pub open spec fn hash_text(v: Json) -> Seq<char> {
    hex(sha256(encode_utf8(canonical(v))))
}

fn hex_digit(d: u8) -> (r: char)
    requires
        d < 16,
    ensures
        r == hex_char(d as int),
{
    proof {
        reveal_strlit("0123456789abcdef");
    }
    "0123456789abcdef".get_char(d as usize)
}

fn hex_text(bytes: &Vec<u8>) -> (r: String)
    ensures
        r@ == hex(bytes@),
{
    let mut out = String::new();
    let mut i: usize = 0;
    while i < bytes.len()
        invariant
            i <= bytes@.len(),
            out@ == hex(bytes@).take(2 * i),
        decreases bytes@.len() - i,
    {
        let b = bytes[i];
        out.push(hex_digit(b / 16));
        out.push(hex_digit(b % 16));
        proof {
            let all = hex(bytes@);
            assert((2 * i) / 2 == i && (2 * i) % 2 == 0);
            assert((2 * i + 1) / 2 == i && (2 * i + 1) % 2 == 1);
            assert(all.take(2 * (i + 1)) =~= all.take(2 * i).push(all[2 * i]).push(
                all[2 * i + 1],
            ));
        }
        i += 1;
    }
    assert(hex(bytes@).take(2 * i) =~= hex(bytes@));
    out
}

fn hash_hex(value: &Value) -> (r: String)
    ensures
        r@ == hash_text(value@),
        r@.len() == 64,
{
    let mut text = String::new();
    write_canonical(value, &mut text);
    assert(text@ =~= canonical(value@));
    let digest = sha256_digest(text.as_str().as_bytes());
    hex_text(&digest)
}

impl UniqueKey {
    /// Wraps a ready-made key. The text is sent verbatim to the server.
    pub fn raw(key: &str) -> (r: UniqueKey)
        ensures
            r.key@ == key@,
            r.scope is None,
    {
        UniqueKey { key: key.to_owned(), scope: None }
    }

    /// Attaches a [`UniqueScope`] to this key. With no scope set, the
    /// server applies its default, [`UniqueScope::Queued`].
    pub fn scope(self, scope: UniqueScope) -> (r: UniqueKey)
        ensures
            r == (UniqueKey { key: self.key, scope: Some(scope) }),
    {
        UniqueKey { key: self.key, scope: Some(scope) }
    }

    /// Builds a key by hashing a JSON value. The key does not depend on
    /// the order of object entries; the order of array items matters.
    pub fn hash_of(value: &Value) -> (r: UniqueKey)
        ensures
            r.key@ == hash_text(value@),
            r.key@.len() == 64,
            r.scope is None,
    {
        UniqueKey { key: hash_hex(value), scope: None }
    }

    /// Builds a key by hashing a JSON value, as [`UniqueKey::hash_of`]
    /// does, behind a readable tag and a colon.
    pub fn tagged_hash_of(tag: &str, value: &Value) -> (r: UniqueKey)
        ensures
            r.key@ == tag@ + ":"@ + hash_text(value@),
            hash_text(value@).len() == 64,
            r.scope is None,
    {
        let hash = hash_hex(value);
        UniqueKey { key: concat3(tag, ":", hash.as_str()), scope: None }
    }

    /// A copy of this key.
    pub fn copy(&self) -> (r: UniqueKey)
        ensures
            r == *self,
    {
        UniqueKey { key: self.key.clone(), scope: self.scope }
    }
}

impl From<String> for UniqueKey {
    fn from(s: String) -> (r: UniqueKey) {
        UniqueKey { key: s, scope: None }
    }
}

impl vstd::std_specs::convert::FromSpecImpl<String> for UniqueKey {
    open spec fn obeys_from_spec() -> bool {
        true
    }

    open spec fn from_spec(s: String) -> UniqueKey {
        UniqueKey { key: s, scope: None }
    }
}

impl From<&str> for UniqueKey {
    fn from(s: &str) -> (r: UniqueKey)
        ensures
            r.key@ == s@,
            r.scope is None,
    {
        UniqueKey::raw(s)
    }
}

impl vstd::std_specs::convert::FromSpecImpl<&str> for UniqueKey {
    open spec fn obeys_from_spec() -> bool {
        false
    }

    open spec fn from_spec(s: &str) -> UniqueKey {
        arbitrary()
    }
}

/// Equal values have the same hash, whatever order their object entries
/// are in.
pub proof fn law_hash_ignores_key_order(a: Json, b: Json)
    requires
        distinct_keys(a),
        distinct_keys(b),
        same_json(a, b),
    ensures
        hash_text(a) == hash_text(b),
{
    law_canonical_ignores_key_order(a, b);
}

/// Tagged keys of different tags differ, whatever was hashed.
pub proof fn law_tags_keep_keys_apart(a: Seq<char>, b: Seq<char>, x: Json, y: Json)
    requires
        a != b,
        hash_text(x).len() == 64,
        hash_text(y).len() == 64,
    ensures
        a + ":"@ + hash_text(x) != b + ":"@ + hash_text(y),
{
    let p = a + ":"@ + hash_text(x);
    let q = b + ":"@ + hash_text(y);
    if p == q {
        assert(p.len() == a.len() + ":"@.len() + 64);
        assert(q.len() == b.len() + ":"@.len() + 64);
        assert(a =~= p.take(a.len() as int));
        assert(b =~= q.take(b.len() as int));
    }
}

/// A hash consists of lowercase hexadecimal digits.
pub proof fn law_hash_is_hexadecimal(v: Json, i: int)
    requires
        0 <= i < hash_text(v).len(),
    ensures
        '0' <= hash_text(v)[i] <= '9' || 'a' <= hash_text(v)[i] <= 'f',
{
    reveal_strlit("0123456789abcdef");
    let bytes = sha256(encode_utf8(canonical(v)));
    let b = bytes[i / 2];
    let d = if i % 2 == 0 {
        b as int / 16
    } else {
        b as int % 16
    };
    assert(0 <= d < 16);
    assert(hash_text(v)[i] == hex_char(d));
}

} // verus!
