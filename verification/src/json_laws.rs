//! What equality, sorting and rendering of JSON values guarantee.

use vstd::multiset::*;
use vstd::prelude::*;
use vstd::seq_lib::*;
use vstd::set_lib::*;
use crate::json::{
    distinct_keys, distinct_names, has_key, lemma_position, position, same_json, Json,
};
use crate::json_text::{canonical, names, sort_keys};
use crate::name_order::{lemma_name_order_total, name_order, sorted_names};

verus! {

/// Entries with distinct names have names without duplicates.
pub proof fn lemma_names_distinct(entries: Seq<(Seq<char>, Json)>)
    requires
        distinct_names(entries),
    ensures
        names(entries).no_duplicates(),
{
    let all = names(entries);
    assert forall|i: int, j: int| 0 <= i < all.len() && 0 <= j < all.len() && i != j implies all[i]
        != all[j] by {
        if i < j {
            assert(entries[i].0 != entries[j].0);
        } else {
            assert(entries[j].0 != entries[i].0);
        }
    }
}

/// Two sequences without duplicates, as long as each other, one of which
/// holds all of the other, hold the same items.
pub proof fn lemma_same_items(a: Seq<Seq<char>>, b: Seq<Seq<char>>)
    requires
        a.no_duplicates(),
        b.no_duplicates(),
        a.len() == b.len(),
        forall|i: int| 0 <= i < a.len() ==> b.contains(#[trigger] a[i]),
    ensures
        a.to_multiset() == b.to_multiset(),
{
    broadcast use group_to_multiset_ensures;
    broadcast use vstd::multiset::group_multiset_axioms;
    broadcast use vstd::seq_lib::seq_to_set_is_finite;

    let x = a.to_set();
    let y = b.to_set();
    a.unique_seq_to_set();
    b.unique_seq_to_set();
    assert(x.subset_of(y)) by {
        assert forall|e: Seq<char>| x.contains(e) implies y.contains(e) by {
            let i = choose|i: int| 0 <= i < a.len() && a[i] == e;
            assert(b.contains(a[i]));
        }
    }
    lemma_subset_equality(x, y);
    a.lemma_multiset_has_no_duplicates();
    b.lemma_multiset_has_no_duplicates();
    assert forall|e: Seq<char>| a.to_multiset().count(e) == b.to_multiset().count(e) by {
        assert(x.contains(e) == y.contains(e));
        assert(x.contains(e) == a.contains(e));
        assert(y.contains(e) == b.contains(e));
        assert(a.contains(e) == (a.to_multiset().count(e) > 0));
        assert(b.contains(e) == (b.to_multiset().count(e) > 0));
    }
    assert(a.to_multiset() =~= b.to_multiset());
}

/// Equal values have the same form once their keys are sorted.
pub proof fn law_sorting_forgets_order(a: Json, b: Json)
    requires
        distinct_keys(a),
        distinct_keys(b),
        same_json(a, b),
    ensures
        sort_keys(a) == sort_keys(b),
    decreases a,
{
    match (a, b) {
        (Json::Arr(x), Json::Arr(y)) => {
            assert forall|i: int| 0 <= i < x.len() implies sort_keys(#[trigger] x[i]) == sort_keys(
                y[i],
            ) by {
                assert(same_json(x[i], y[i]));
                assert(distinct_keys(x[i]) && distinct_keys(y[i]));
                law_sorting_forgets_order(x[i], y[i]);
            }
            assert(sort_keys(a)->Arr_0 =~= sort_keys(b)->Arr_0);
        },
        (Json::Obj(x), Json::Obj(y)) => {
            let nx = names(x);
            let ny = names(y);
            let order = sorted_names(nx);
            lemma_names_distinct(x);
            lemma_names_distinct(y);
            assert forall|i: int| 0 <= i < nx.len() implies ny.contains(#[trigger] nx[i]) by {
                assert(has_key(y, x[i].0));
                lemma_position(y, x[i].0);
                assert(ny[position(y, x[i].0)] == nx[i]);
            }
            lemma_same_items(nx, ny);
            lemma_name_order_total();
            nx.lemma_sort_by_ensures(name_order());
            ny.lemma_sort_by_ensures(name_order());
            lemma_sorted_unique(sorted_names(nx), sorted_names(ny), name_order());
            let sx = sort_keys(a)->Obj_0;
            let sy = sort_keys(b)->Obj_0;
            assert forall|i: int| 0 <= i < order.len() implies #[trigger] sx[i] == sy[i] by {
                let key = order[i];
                lemma_position(x, key);
                lemma_position(y, key);
                let p = position(x, key);
                if p < x.len() {
                    assert(x[p].0 == key);
                    assert(has_key(y, x[p].0));
                    let q = position(y, key);
                    assert(same_json(x[p].1, y[q].1));
                    assert(distinct_keys(x[p].1) && distinct_keys(y[q].1));
                    law_sorting_forgets_order(x[p].1, y[q].1);
                } else {
                    assert(order.contains(key));
                    assert(nx.contains(key));
                    let j = choose|j: int| 0 <= j < nx.len() && nx[j] == key;
                    assert(x[j].0 != key);
                }
            }
            assert(sx =~= sy);
        },
        _ => {},
    }
}

/// Equal values have the same canonical text, whatever order their object
/// entries are in.
pub proof fn law_canonical_ignores_key_order(a: Json, b: Json)
    requires
        distinct_keys(a),
        distinct_keys(b),
        same_json(a, b),
    ensures
        canonical(a) == canonical(b),
{
    law_sorting_forgets_order(a, b);
}

} // verus!
