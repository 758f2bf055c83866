//! The order of object entries never shows: values that are equal up to it
//! stay equal under every operation on paths.

use vstd::prelude::*;
use vstd::seq_lib::*;
use crate::hashable::without_paths;
use crate::jq_laws::{
    law_remove_keeps_keys_distinct, lemma_child_distinct, lemma_picked_upto_distinct,
    lemma_put_other, lemma_put_same, lemma_resolving_indexes, lemma_without_other,
};
use crate::jq_path::{
    at_path, child, container, padded, picked, picked_upto, placed, with_child, without_path, Step,
};
use crate::json::{
    distinct_keys, distinct_names, has_key, lemma_position, lookup, position, put, same_json,
    without, Json,
};
use crate::json_laws::{lemma_names_distinct, lemma_same_items};
use crate::json_text::names;

verus! {

/// Objects that are equal have the same keys.
proof fn lemma_same_keys(x: Seq<(Seq<char>, Json)>, y: Seq<(Seq<char>, Json)>, key: Seq<char>)
    requires
        distinct_names(x),
        distinct_names(y),
        same_json(Json::Obj(x), Json::Obj(y)),
    ensures
        has_key(x, key) == has_key(y, key),
{
    broadcast use group_to_multiset_ensures;

    let a = Json::Obj(x);
    let nx = names(x);
    let ny = names(y);
    lemma_names_distinct(x);
    lemma_names_distinct(y);
    assert forall|i: int| 0 <= i < nx.len() implies ny.contains(#[trigger] nx[i]) by {
        assert(a->Obj_0[i] == x[i]);
        assert(has_key(y, x[i].0));
        lemma_position(y, x[i].0);
        assert(ny[position(y, x[i].0)] == nx[i]);
    }
    lemma_same_items(nx, ny);
    assert(nx.contains(key) == (nx.to_multiset().count(key) > 0));
    assert(ny.contains(key) == (ny.to_multiset().count(key) > 0));
    lemma_key_is_name(x, key);
    lemma_key_is_name(y, key);
}

/// A key is there where its name is.
pub proof fn lemma_key_is_name(x: Seq<(Seq<char>, Json)>, key: Seq<char>)
    ensures
        has_key(x, key) == names(x).contains(key),
{
    lemma_position(x, key);
    if has_key(x, key) {
        assert(names(x)[position(x, key)] == key);
    } else if names(x).contains(key) {
        let j = choose|j: int| 0 <= j < names(x).len() && names(x)[j] == key;
        assert(x[j].0 != key);
    }
}

/// Objects that are equal hold equal values under each key.
proof fn lemma_same_lookup(x: Seq<(Seq<char>, Json)>, y: Seq<(Seq<char>, Json)>, key: Seq<char>)
    requires
        distinct_names(x),
        distinct_names(y),
        same_json(Json::Obj(x), Json::Obj(y)),
    ensures
        has_key(x, key) == has_key(y, key),
        has_key(x, key) ==> same_json(lookup(x, key)->0, lookup(y, key)->0),
{
    lemma_same_keys(x, y, key);
    if has_key(x, key) {
        lemma_position(x, key);
        let a = Json::Obj(x);
        let p = position(x, key);
        assert(a->Obj_0[p] == x[p]);
        assert(same_json(x[p].1, lookup(y, x[p].0)->0));
    }
}

/// Setting a key to equal values keeps objects equal.
proof fn lemma_same_put(
    x: Seq<(Seq<char>, Json)>,
    y: Seq<(Seq<char>, Json)>,
    key: Seq<char>,
    c: Json,
    d: Json,
)
    requires
        distinct_names(x),
        distinct_names(y),
        same_json(Json::Obj(x), Json::Obj(y)),
        same_json(c, d),
    ensures
        same_json(Json::Obj(put(x, key, c)), Json::Obj(put(y, key, d))),
{
    let px = put(x, key, c);
    let py = put(y, key, d);
    lemma_same_keys(x, y, key);
    lemma_position(x, key);
    lemma_position(y, key);
    lemma_put_same(y, key, d);
    assert forall|i: int| #![trigger px[i]] 0 <= i < px.len() implies has_key(py, px[i].0)
        && same_json(px[i].1, lookup(py, px[i].0)->0) by {
        let p = position(x, key);
        if i == p {
            assert(px[i] == (key, c));
            assert(lookup(py, key) == Some(d));
        } else {
            assert(px[i] == x[i]);
            if has_key(x, key) {
                if i < p {
                    assert(x[i].0 != x[p].0);
                } else {
                    assert(x[p].0 != x[i].0);
                }
            } else {
                assert(x[i].0 != key);
            }
            lemma_put_other(y, key, d, x[i].0);
            lemma_position(x, x[i].0);
            lemma_own_key(x, i);
            lemma_same_lookup(x, y, x[i].0);
            assert(lookup(py, x[i].0) == lookup(y, x[i].0));
            assert(lookup(py, x[i].0) is Some == has_key(py, x[i].0));
        }
    }
    let a = Json::Obj(x);
    let b = Json::Obj(y);
    assert(same_json(a, b) && a->Obj_0.len() == b->Obj_0.len());
    assert(px.len() == py.len());
}

/// Where names are distinct, an entry is found under its own name.
pub proof fn lemma_own_key(x: Seq<(Seq<char>, Json)>, i: int)
    requires
        distinct_names(x),
        0 <= i < x.len(),
    ensures
        has_key(x, x[i].0),
        position(x, x[i].0) == i,
{
    lemma_position(x, x[i].0);
    let p = position(x, x[i].0);
    if p < i {
        if p < x.len() {
            assert(x[p].0 != x[i].0);
        }
    } else if i < p {
        assert(x[i].0 != x[i].0);
    }
}

/// Removing a key keeps objects equal.
proof fn lemma_same_without(x: Seq<(Seq<char>, Json)>, y: Seq<(Seq<char>, Json)>, key: Seq<char>)
    requires
        distinct_names(x),
        distinct_names(y),
        same_json(Json::Obj(x), Json::Obj(y)),
    ensures
        same_json(Json::Obj(without(x, key)), Json::Obj(without(y, key))),
{
    lemma_same_keys(x, y, key);
    if has_key(x, key) {
        let wx = without(x, key);
        let wy = without(y, key);
        let p = position(x, key);
        lemma_position(x, key);
        lemma_position(y, key);
        assert forall|i: int| #![trigger wx[i]] 0 <= i < wx.len() implies has_key(wy, wx[i].0)
            && same_json(wx[i].1, lookup(wy, wx[i].0)->0) by {
            let j = if i < p { i } else { i + 1 };
            assert(wx[i] == x[j]);
            if j < p {
                assert(x[j].0 != x[p].0);
            } else {
                assert(x[p].0 != x[j].0);
            }
            lemma_without_other(y, key, x[j].0);
            lemma_own_key(x, j);
            lemma_same_lookup(x, y, x[j].0);
            assert(lookup(wy, x[j].0) == lookup(y, x[j].0));
            assert(lookup(wy, x[j].0) is Some == has_key(wy, x[j].0));
        }
        assert(wx.len() == wy.len());
    }
}

/// Equal values have equal sub-values one step below.
proof fn lemma_same_child(a: Json, b: Json, step: Step)
    requires
        distinct_keys(a),
        distinct_keys(b),
        same_json(a, b),
    ensures
        child(a, step) is Some == child(b, step) is Some,
        child(a, step) is Some ==> same_json(child(a, step)->0, child(b, step)->0),
{
    match (step, a, b) {
        (Step::Field(name), Json::Obj(x), Json::Obj(y)) => {
            lemma_same_lookup(x, y, name);
        },
        (Step::Index(i), Json::Arr(x), Json::Arr(y)) => {
            if 0 <= i < x.len() {
                assert(same_json(x[i], y[i]));
            }
        },
        _ => {},
    }
}

/// Equal values have equal sub-values at each path.
pub proof fn law_walk_ignores_key_order(a: Json, b: Json, path: Seq<Step>)
    requires
        distinct_keys(a),
        distinct_keys(b),
        same_json(a, b),
    ensures
        at_path(a, path) is Some == at_path(b, path) is Some,
        at_path(a, path) is Some ==> same_json(at_path(a, path)->0, at_path(b, path)->0),
    decreases path.len(),
{
    if path.len() > 0 {
        lemma_same_child(a, b, path[0]);
        if child(a, path[0]) is Some {
            lemma_child_distinct(a, path[0]);
            lemma_child_distinct(b, path[0]);
            law_walk_ignores_key_order(
                child(a, path[0])->0,
                child(b, path[0])->0,
                path.drop_first(),
            );
        }
    }
}

/// Removing the same path keeps equal values equal.
pub proof fn law_remove_ignores_key_order(a: Json, b: Json, path: Seq<Step>)
    requires
        distinct_keys(a),
        distinct_keys(b),
        same_json(a, b),
    ensures
        same_json(without_path(a, path), without_path(b, path)),
    decreases path.len(),
{
    if path.len() == 1 {
        match (path[0], a, b) {
            (Step::Field(name), Json::Obj(x), Json::Obj(y)) => {
                lemma_same_without(x, y, name);
            },
            (Step::Index(k), Json::Arr(x), Json::Arr(y)) => {
                if 0 <= k < x.len() {
                    let rx = x.remove(k);
                    let ry = y.remove(k);
                    assert forall|i: int| #![trigger rx[i]] 0 <= i < rx.len() implies same_json(
                        rx[i],
                        ry[i],
                    ) by {
                        let j = if i < k { i } else { i + 1 };
                        assert(rx[i] == x[j] && ry[i] == y[j]);
                        assert(same_json(x[j], y[j]));
                    }
                }
            },
            _ => {},
        }
    } else if path.len() > 1 {
        lemma_same_child(a, b, path[0]);
        if let Some(c) = child(a, path[0]) {
            let d = child(b, path[0])->0;
            let rest = path.drop_first();
            lemma_child_distinct(a, path[0]);
            lemma_child_distinct(b, path[0]);
            law_remove_ignores_key_order(c, d, rest);
            lemma_same_with_child(a, b, path[0], without_path(c, rest), without_path(d, rest));
        }
    }
}

/// Replacing a sub-value by equal ones keeps equal values equal.
proof fn lemma_same_with_child(a: Json, b: Json, step: Step, c: Json, d: Json)
    requires
        distinct_keys(a),
        distinct_keys(b),
        same_json(a, b),
        same_json(c, d),
        child(a, step) is Some,
    ensures
        same_json(with_child(a, step, c), with_child(b, step, d)),
{
    match (step, a, b) {
        (Step::Field(name), Json::Obj(x), Json::Obj(y)) => {
            lemma_same_put(x, y, name, c, d);
        },
        (Step::Index(k), Json::Arr(x), Json::Arr(y)) => {
            lemma_same_update(x, y, k, c, d);
        },
        _ => {},
    }
}

proof fn lemma_same_update(x: Seq<Json>, y: Seq<Json>, k: int, c: Json, d: Json)
    requires
        same_json(Json::Arr(x), Json::Arr(y)),
        same_json(c, d),
        0 <= k < x.len(),
    ensures
        same_json(Json::Arr(x.update(k, c)), Json::Arr(y.update(k, d))),
{
    let a = Json::Arr(x);
    let ux = x.update(k, c);
    let uy = y.update(k, d);
    assert forall|i: int| #![trigger ux[i]] 0 <= i < ux.len() implies same_json(ux[i], uy[i]) by {
        if i != k {
            assert(a->Arr_0[i] == x[i]);
            assert(same_json(x[i], y[i]));
        }
    }
}

/// Padding keeps equal arrays equal.
proof fn lemma_same_padded(x: Seq<Json>, y: Seq<Json>, len: int)
    requires
        same_json(Json::Arr(x), Json::Arr(y)),
    ensures
        same_json(Json::Arr(padded(x, len)), Json::Arr(padded(y, len))),
{
    let a = Json::Arr(x);
    let px = padded(x, len);
    let py = padded(y, len);
    assert forall|i: int| #![trigger px[i]] 0 <= i < px.len() implies same_json(px[i], py[i]) by {
        if i < x.len() {
            assert(a->Arr_0[i] == x[i]);
            assert(px[i] == x[i] && py[i] == y[i]);
            assert(same_json(x[i], y[i]));
        }
    }
}

proof fn lemma_padded_distinct(x: Seq<Json>, len: int)
    requires
        distinct_keys(Json::Arr(x)),
    ensures
        distinct_keys(Json::Arr(padded(x, len))),
{
    let a = Json::Arr(x);
    let px = padded(x, len);
    assert forall|i: int| #![trigger px[i]] 0 <= i < px.len() implies distinct_keys(px[i]) by {
        if i < x.len() {
            assert(a->Arr_0[i] == x[i]);
            assert(px[i] == x[i]);
        }
    }
}

/// Writing equal values at the same path keeps equal values equal.
proof fn lemma_same_placed(t: Json, u: Json, path: Seq<Step>, v: Json, w: Json)
    requires
        path.len() > 0,
        distinct_keys(t),
        distinct_keys(u),
        same_json(t, u),
        same_json(v, w),
        forall|k: int|
            0 <= k < path.len() ==> ((#[trigger] path[k]) matches Step::Index(i) ==> 0 <= i),
    ensures
        same_json(placed(t, path, v), placed(u, path, w)),
    decreases path.len(),
{
    let rest = path.drop_first();
    assert forall|k: int| 0 <= k < rest.len() implies ((#[trigger] rest[k]) matches Step::Index(
        i,
    ) ==> 0 <= i) by {
        assert(rest[k] == path[k + 1]);
    }
    match (path[0], t, u) {
        (Step::Field(name), Json::Obj(x), Json::Obj(y)) => {
            lemma_same_lookup(x, y, name);
            if path.len() > 1 {
                let s = match lookup(x, name) {
                    Some(c) => c,
                    None => container(path[1]),
                };
                let r = match lookup(y, name) {
                    Some(c) => c,
                    None => container(path[1]),
                };
                if has_key(x, name) {
                    lemma_child_distinct(t, path[0]);
                    lemma_child_distinct(u, path[0]);
                }
                lemma_same_placed(s, r, rest, v, w);
                lemma_same_put(x, y, name, placed(s, rest, v), placed(r, rest, w));
            } else {
                lemma_same_put(x, y, name, v, w);
            }
        },
        (Step::Index(i), Json::Arr(x), Json::Arr(y)) => {
            let px = padded(x, i + 1);
            let py = padded(y, i + 1);
            lemma_same_padded(x, y, i + 1);
            lemma_padded_distinct(x, i + 1);
            lemma_padded_distinct(y, i + 1);
            let pa = Json::Arr(px);
            let pb = Json::Arr(py);
            assert(pa->Arr_0[i] == px[i] && pb->Arr_0[i] == py[i]);
            assert(same_json(px[i], py[i]));
            assert(distinct_keys(px[i]) && distinct_keys(py[i]));
            if path.len() > 1 {
                let s = if px[i] is Null {
                    container(path[1])
                } else {
                    px[i]
                };
                let r = if py[i] is Null {
                    container(path[1])
                } else {
                    py[i]
                };
                lemma_same_placed(s, r, rest, v, w);
                lemma_same_update(px, py, i, placed(s, rest, v), placed(r, rest, w));
            } else {
                lemma_same_update(px, py, i, v, w);
            }
        },
        _ => {},
    }
}

proof fn lemma_same_picked_upto(a: Json, b: Json, paths: Seq<Seq<Step>>, n: int)
    requires
        distinct_keys(a),
        distinct_keys(b),
        same_json(a, b),
        0 <= n <= paths.len(),
        forall|k: int| 0 <= k < n ==> (#[trigger] paths[k]).len() > 0,
    ensures
        same_json(picked_upto(a, paths, n), picked_upto(b, paths, n)),
    decreases n,
{
    if n > 0 {
        lemma_same_picked_upto(a, b, paths, n - 1);
        lemma_picked_upto_distinct(a, paths, n - 1);
        lemma_picked_upto_distinct(b, paths, n - 1);
        let path = paths[n - 1];
        law_walk_ignores_key_order(a, b, path);
        if let Some(v) = at_path(a, path) {
            let w = at_path(b, path)->0;
            let t = picked_upto(a, paths, n - 1);
            let u = picked_upto(b, paths, n - 1);
            let s = if t is Null {
                container(path[0])
            } else {
                t
            };
            let r = if u is Null {
                container(path[0])
            } else {
                u
            };
            assert forall|k: int| 0 <= k < path.len() implies ((#[trigger] path[k]) matches
                Step::Index(i) ==> 0 <= i) by {
                lemma_resolving_indexes(a, path, k);
            }
            lemma_same_placed(s, r, path, v, w);
        }
    }
}

/// Picking the same paths keeps equal values equal.
pub proof fn law_pick_ignores_key_order(a: Json, b: Json, paths: Seq<Seq<Step>>)
    requires
        distinct_keys(a),
        distinct_keys(b),
        same_json(a, b),
    ensures
        same_json(picked(a, paths), picked(b, paths)),
{
    if !(exists|k: int| 0 <= k < paths.len() && (#[trigger] paths[k]).len() == 0) {
        lemma_same_picked_upto(a, b, paths, paths.len() as int);
    }
}

/// Excluding the same paths keeps equal values equal, and their keys
/// distinct.
pub proof fn law_exclusion_ignores_key_order(a: Json, b: Json, paths: Seq<Seq<Step>>, n: int)
    requires
        distinct_keys(a),
        distinct_keys(b),
        same_json(a, b),
    ensures
        same_json(without_paths(a, paths, n), without_paths(b, paths, n)),
        distinct_keys(without_paths(a, paths, n)),
        distinct_keys(without_paths(b, paths, n)),
    decreases n,
{
    if n > 0 {
        law_exclusion_ignores_key_order(a, b, paths, n - 1);
        let x = without_paths(a, paths, n - 1);
        let y = without_paths(b, paths, n - 1);
        law_remove_ignores_key_order(x, y, paths[n - 1]);
        law_remove_keeps_keys_distinct(x, paths[n - 1]);
        law_remove_keeps_keys_distinct(y, paths[n - 1]);
    }
}

} // verus!
