//! What an object that was built field by field holds.

use vstd::prelude::*;
use vstd::seq_lib::*;
use crate::decode::get;
use crate::json::{has_key, lemma_position_is, lookup, Json};
use crate::wire::{lemma_field, opt_field};

verus! {

/// The entries of an object whose first `k` fields were added one after the
/// other, those without a value left out.
pub open spec fn built(names: Seq<Seq<char>>, values: Seq<Option<Json>>, k: int) -> Seq<
    (Seq<char>, Json),
>
    decreases k,
{
    if k <= 0 {
        Seq::empty()
    } else {
        built(names, values, k - 1) + opt_field(names[k - 1], values[k - 1])
    }
}

proof fn lemma_built_upto(
    names: Seq<Seq<char>>,
    values: Seq<Option<Json>>,
    k: int,
    i: int,
    name: Seq<char>,
)
    requires
        names.no_duplicates(),
        names.len() == values.len(),
        0 <= k <= names.len(),
        0 <= i < k ==> name == names[i],
        i < 0 || i >= k ==> forall|j: int| 0 <= j < k ==> #[trigger] names[j] != name,
    ensures
        lookup(built(names, values, k), name) == if 0 <= i < k {
            values[i]
        } else {
            None
        },
    decreases k,
{
    if k > 0 {
        let last = names[k - 1];
        let before = built(names, values, k - 1);
        let next = if i == k - 1 {
            -1
        } else {
            i
        };
        assert forall|j: int| 0 <= j < k - 1 && !(0 <= next < k - 1) implies #[trigger] names[j]
            != name by {
            if i == k - 1 {
                assert(names[j] != names[k - 1]);
            }
        }
        lemma_built_upto(names, values, k - 1, next, name);
        lemma_field(before, last, values[k - 1], name);
        if i == k - 1 {
            assert(lookup(before, name) is Some == has_key(before, name));
        } else if 0 <= i < k {
            assert(names[i] != names[k - 1]);
        }
    } else {
        lemma_position_is(Seq::empty(), name, 0);
    }
}

/// An object that was built from fields with different names holds each
/// under its name, and nothing else.
pub proof fn lemma_built(names: Seq<Seq<char>>, values: Seq<Option<Json>>)
    requires
        names.no_duplicates(),
        names.len() == values.len(),
    ensures
        forall|i: int|
            #![trigger names[i]]
            0 <= i < names.len() ==> get(
                Json::Obj(built(names, values, names.len() as int)),
                names[i],
            ) == values[i],
        forall|name: Seq<char>|
            #![trigger names.contains(name)]
            get(Json::Obj(built(names, values, names.len() as int)), name) is Some
                ==> names.contains(name),
{
    let n = names.len() as int;
    assert forall|i: int| #![trigger names[i]] 0 <= i < n implies get(
        Json::Obj(built(names, values, n)),
        names[i],
    ) == values[i] by {
        lemma_built_upto(names, values, n, i, names[i]);
    }
    assert forall|name: Seq<char>|
        #![trigger names.contains(name)]
        get(Json::Obj(built(names, values, n)), name) is Some implies names.contains(name) by {
        if !names.contains(name) {
            assert forall|j: int| 0 <= j < n implies #[trigger] names[j] != name by {}
            lemma_built_upto(names, values, n, -1, name);
        }
    }
}

} // verus!
