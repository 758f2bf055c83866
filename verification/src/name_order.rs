//! The order of object keys, and sorting by it.

use vstd::prelude::*;
use vstd::relations::*;
use vstd::seq_lib::*;
use vstd::string::*;
use vstd::utf8::*;
use crate::text::slice_texts;

verus! {

/// Lexicographic order on byte strings.
pub open spec fn bytes_leq(a: Seq<u8>, b: Seq<u8>) -> bool
    decreases a.len(),
{
    if a.len() == 0 {
        true
    } else if b.len() == 0 {
        false
    } else if a[0] == b[0] {
        bytes_leq(a.drop_first(), b.drop_first())
    } else {
        a[0] < b[0]
    }
}

/// The order of text: lexicographic by the bytes of its encoding.
pub open spec fn name_leq(a: Seq<char>, b: Seq<char>) -> bool {
    bytes_leq(encode_utf8(a), encode_utf8(b))
}

/// [`name_leq`] as a relation.
pub open spec fn name_order() -> spec_fn(Seq<char>, Seq<char>) -> bool {
    |a: Seq<char>, b: Seq<char>| name_leq(a, b)
}

/// `names` in ascending order.
pub open spec fn sorted_names(names: Seq<Seq<char>>) -> Seq<Seq<char>> {
    names.sort_by(name_order())
}

proof fn lemma_bytes_reflexive(a: Seq<u8>)
    ensures
        bytes_leq(a, a),
    decreases a.len(),
{
    if a.len() > 0 {
        lemma_bytes_reflexive(a.drop_first());
    }
}

proof fn lemma_bytes_antisymmetric(a: Seq<u8>, b: Seq<u8>)
    requires
        bytes_leq(a, b),
        bytes_leq(b, a),
    ensures
        a == b,
    decreases a.len(),
{
    if a.len() > 0 && b.len() > 0 {
        lemma_bytes_antisymmetric(a.drop_first(), b.drop_first());
        assert(a =~= seq![a[0]] + a.drop_first());
        assert(b =~= seq![b[0]] + b.drop_first());
    } else {
        assert(a =~= b);
    }
}

proof fn lemma_bytes_transitive(a: Seq<u8>, b: Seq<u8>, c: Seq<u8>)
    requires
        bytes_leq(a, b),
        bytes_leq(b, c),
    ensures
        bytes_leq(a, c),
    decreases a.len(),
{
    if a.len() > 0 && b.len() > 0 && c.len() > 0 && a[0] == b[0] && b[0] == c[0] {
        lemma_bytes_transitive(a.drop_first(), b.drop_first(), c.drop_first());
    }
}

proof fn lemma_bytes_connected(a: Seq<u8>, b: Seq<u8>)
    ensures
        bytes_leq(a, b) || bytes_leq(b, a),
    decreases a.len(),
{
    if a.len() > 0 && b.len() > 0 {
        lemma_bytes_connected(a.drop_first(), b.drop_first());
    }
}

/// The order of text is total.
pub proof fn lemma_name_order_total()
    ensures
        total_ordering(name_order()),
{
    let r = name_order();
    assert forall|x: Seq<char>| #[trigger] r(x, x) by {
        lemma_bytes_reflexive(encode_utf8(x));
    }
    assert forall|x: Seq<char>, y: Seq<char>| #[trigger] r(x, y) && #[trigger] r(y, x) implies x
        == y by {
        lemma_bytes_antisymmetric(encode_utf8(x), encode_utf8(y));
        encode_utf8_decode_utf8(x);
        encode_utf8_decode_utf8(y);
    }
    assert forall|x: Seq<char>, y: Seq<char>, z: Seq<char>| #[trigger]
        r(x, y) && #[trigger] r(y, z) implies r(x, z) by {
        lemma_bytes_transitive(encode_utf8(x), encode_utf8(y), encode_utf8(z));
    }
    assert forall|x: Seq<char>, y: Seq<char>| #[trigger] r(x, y) || #[trigger] r(y, x) by {
        lemma_bytes_connected(encode_utf8(x), encode_utf8(y));
    }
}

/// Whether `a` comes no later than `b`.
fn not_after(a: &str, b: &str) -> (r: bool)
    ensures
        r == name_leq(a@, b@),
{
    let x = a.as_bytes();
    let y = b.as_bytes();
    let mut i: usize = 0;
    assert(x@.skip(0) =~= x@ && y@.skip(0) =~= y@);
    while i < x.len() && i < y.len()
        invariant
            i <= x@.len(),
            i <= y@.len(),
            x@ == encode_utf8(a@),
            y@ == encode_utf8(b@),
            name_leq(a@, b@) == bytes_leq(x@.skip(i as int), y@.skip(i as int)),
        decreases x@.len() - i,
    {
        assert(x@.skip(i as int).drop_first() =~= x@.skip(i + 1));
        assert(y@.skip(i as int).drop_first() =~= y@.skip(i + 1));
        if x[i] != y[i] {
            return x[i] < y[i];
        }
        i += 1;
    }
    i == x.len()
}


/// Inserts `name` into the ascending `names` where it belongs.
fn insert_sorted<'a>(names: &mut Vec<&'a str>, name: &'a str)
    requires
        sorted_by(slice_texts(old(names)@), name_order()),
    ensures
        sorted_by(slice_texts(final(names)@), name_order()),
        slice_texts(final(names)@).to_multiset() == slice_texts(
            old(names)@,
        ).to_multiset().insert(name@),
{
    let ghost before = slice_texts(names@);
    let ghost leq = name_order();
    proof {
        lemma_name_order_total();
    }
    let mut i: usize = names.len();
    while i > 0 && !not_after(names[i - 1], name)
        invariant
            i <= names@.len(),
            before == slice_texts(names@),
            leq == name_order(),
            total_ordering(leq),
            sorted_by(before, leq),
            forall|j: int| i <= j < before.len() ==> leq(name@, #[trigger] before[j]),
        decreases i,
    {
        proof {
            assert(leq(before[i - 1], name@) || leq(name@, before[i - 1]));
            assert forall|j: int| i - 1 <= j < before.len() implies leq(
                name@,
                #[trigger] before[j],
            ) by {}
        }
        i -= 1;
    }
    names.insert(i, name);
    let ghost after = slice_texts(names@);
    proof {
        assert(after =~= before.insert(i as int, name@));
        assert forall|j: int| 0 <= j < i implies leq(#[trigger] before[j], name@) by {
            assert(leq(before[i - 1], name@));
            if j < i - 1 {
                assert(leq(before[j], before[i - 1]));
            }
        }
        assert forall|j: int, k: int| 0 <= j < k < after.len() implies #[trigger] leq(
            after[j],
            after[k],
        ) by {
            let a = if j < i {
                j
            } else {
                j - 1
            };
            let b = if k < i {
                k
            } else {
                k - 1
            };
            if j != i && k != i {
                assert(leq(before[a], before[b]));
            } else if j == i {
                assert(after[k] == before[k - 1]);
            } else {
                assert(after[j] == before[j]);
            }
        }
        broadcast use group_to_multiset_ensures;

        assert(before.insert(i as int, name@).to_multiset() =~= before.to_multiset().insert(name@));
    }
}

/// Sorts `names` in ascending order.
pub fn sort_names<'a>(names: &Vec<&'a str>) -> (r: Vec<&'a str>)
    ensures
        slice_texts(r@) == sorted_names(slice_texts(names@)),
{
    let mut out: Vec<&'a str> = Vec::new();
    let mut i: usize = 0;
    let ghost all = slice_texts(names@);
    proof {
        broadcast use group_to_multiset_ensures;

        assert(slice_texts(out@) =~= Seq::empty());
        assert(all.take(0) =~= Seq::empty());
    }
    while i < names.len()
        invariant
            i <= names@.len(),
            all == slice_texts(names@),
            sorted_by(slice_texts(out@), name_order()),
            slice_texts(out@).to_multiset() == all.take(i as int).to_multiset(),
        decreases names@.len() - i,
    {
        insert_sorted(&mut out, names[i]);
        proof {
            broadcast use group_to_multiset_ensures;

            assert(all.take(i + 1) =~= all.take(i as int).push(all[i as int]));
        }
        i += 1;
    }
    proof {
        assert(all.take(i as int) =~= all);
        lemma_name_order_total();
        all.lemma_sort_by_ensures(name_order());
        lemma_sorted_unique(slice_texts(out@), sorted_names(all), name_order());
    }
    out
}

} // verus!
