//! What walking, pruning and picking guarantee of each other.

use vstd::prelude::*;
use crate::jq_path::{
    at_path, child, container, padded, picked, picked_upto, placed, with_path, without_path, Step,
};
use crate::json::{
    distinct_keys, has_key, lemma_position, lemma_position_is, lookup, position, put, without,
    Json,
};

verus! {

/// Setting a key makes it readable.
pub proof fn lemma_put_same(entries: Seq<(Seq<char>, Json)>, key: Seq<char>, v: Json)
    ensures
        lookup(put(entries, key, v), key) == Some(v),
{
    lemma_position(entries, key);
    let after = put(entries, key, v);
    let p = position(entries, key);
    assert forall|j: int| 0 <= j < p implies (#[trigger] after[j]).0 != key by {
        assert(after[j] == entries[j]);
    }
    lemma_position_is(after, key, p);
}

/// Setting a key leaves every other key alone.
pub proof fn lemma_put_other(
    entries: Seq<(Seq<char>, Json)>,
    key: Seq<char>,
    v: Json,
    other: Seq<char>,
)
    requires
        other != key,
    ensures
        lookup(put(entries, key, v), other) == lookup(entries, other),
{
    lemma_position(entries, key);
    lemma_position(entries, other);
    let after = put(entries, key, v);
    let p = position(entries, other);
    assert forall|j: int| 0 <= j < p implies (#[trigger] after[j]).0 != other by {
        if j < entries.len() && j != position(entries, key) {
            assert(after[j] == entries[j]);
        }
    }
    if p < entries.len() {
        assert(after[p] == entries[p]);
        lemma_position_is(after, other, p);
    } else {
        assert forall|j: int| 0 <= j < after.len() implies (#[trigger] after[j]).0 != other by {
            if j < entries.len() && j != position(entries, key) {
                assert(after[j] == entries[j]);
            }
        }
        lemma_position_is(after, other, after.len() as int);
    }
}

/// Setting a key to the value it has changes nothing.
proof fn lemma_put_identity(entries: Seq<(Seq<char>, Json)>, key: Seq<char>)
    requires
        has_key(entries, key),
    ensures
        put(entries, key, lookup(entries, key)->0) == entries,
{
    lemma_position(entries, key);
    assert(put(entries, key, lookup(entries, key)->0) =~= entries);
}

/// Removing a key leaves every other key alone.
pub proof fn lemma_without_other(
    entries: Seq<(Seq<char>, Json)>,
    key: Seq<char>,
    other: Seq<char>,
)
    requires
        other != key,
    ensures
        lookup(without(entries, key), other) == lookup(entries, other),
{
    if has_key(entries, key) {
        lemma_position(entries, key);
        lemma_position(entries, other);
        let k = position(entries, key);
        let p = position(entries, other);
        let after = without(entries, key);
        let q = if p > k { p - 1 } else { p };
        assert forall|j: int| 0 <= j < q implies (#[trigger] after[j]).0 != other by {
            if j < k {
                assert(after[j] == entries[j]);
            } else {
                assert(after[j] == entries[j + 1]);
            }
        }
        if p < entries.len() {
            assert(p != k);
            if p > k {
                assert(after[p - 1] == entries[p]);
            } else {
                assert(after[p] == entries[p]);
            }
        }
        lemma_position_is(after, other, q);
    }
}

/// Writing back the sub-value that is at a path changes nothing.
pub proof fn law_writing_back_is_identity(v: Json, path: Seq<Step>)
    requires
        path.len() > 0,
        at_path(v, path) is Some,
    ensures
        with_path(v, path, at_path(v, path)->0) == v,
{
    lemma_placed_identity(v, path);
}

pub proof fn lemma_placed_identity(v: Json, path: Seq<Step>)
    requires
        path.len() > 0,
        at_path(v, path) is Some,
    ensures
        placed(v, path, at_path(v, path)->0) == v,
    decreases path.len(),
{
    let found = at_path(v, path)->0;
    let rest = path.drop_first();
    match (path[0], v) {
        (Step::Field(name), Json::Obj(entries)) => {
            lemma_put_identity(entries, name);
            if path.len() > 1 {
                lemma_placed_identity(lookup(entries, name)->0, rest);
            }
        },
        (Step::Index(i), Json::Arr(items)) => {
            assert(padded(items, i + 1) == items);
            if path.len() > 1 {
                assert(at_path(items[i], rest) == Some(found));
                assert(child(items[i], rest[0]) is Some);
                lemma_placed_identity(items[i], rest);
            }
            assert(items.update(i, items[i]) =~= items);
        },
        _ => {},
    }
}

/// Whether a value can be written into `cur` at `path`: wherever the path
/// meets something that is there, the step fits it.
pub open spec fn takes_path(cur: Json, path: Seq<Step>) -> bool
    decreases path.len(),
{
    path.len() > 0 && match (path[0], cur) {
        (Step::Field(name), Json::Obj(entries)) => path.len() == 1 || match lookup(entries, name) {
            Some(c) => takes_path(c, path.drop_first()),
            None => true,
        },
        (Step::Index(i), Json::Arr(items)) => path.len() == 1 || i >= items.len() || items[i] is Null
            || takes_path(items[i], path.drop_first()),
        _ => false,
    }
}

/// What was written at a path is there, unless a step on the way does not
/// fit what is there.
pub proof fn law_written_value_reads_back(target: Json, path: Seq<Step>, v: Json)
    requires
        path.len() > 0,
        target is Null || takes_path(target, path),
        forall|k: int|
            0 <= k < path.len() ==> ((#[trigger] path[k]) matches Step::Index(i) ==> i >= 0),
    ensures
        at_path(with_path(target, path, v), path) == Some(v),
{
    if target is Null {
        lemma_container_takes(path);
        lemma_placed_reads_back(container(path[0]), path, v);
    } else {
        lemma_placed_reads_back(target, path, v);
    }
}

proof fn lemma_container_takes(path: Seq<Step>)
    requires
        path.len() > 0,
        path[0] matches Step::Index(i) ==> i >= 0,
    ensures
        takes_path(container(path[0]), path),
{
    if let Step::Field(name) = path[0] {
        lemma_position(Seq::empty(), name);
    }
}

proof fn lemma_placed_reads_back(cur: Json, path: Seq<Step>, v: Json)
    requires
        takes_path(cur, path),
        forall|k: int|
            0 <= k < path.len() ==> ((#[trigger] path[k]) matches Step::Index(i) ==> i >= 0),
    ensures
        at_path(placed(cur, path, v), path) == Some(v),
    decreases path.len(),
{
    let rest = path.drop_first();
    assert forall|k: int| 0 <= k < rest.len() implies ((#[trigger] rest[k]) matches Step::Index(i)
        ==> i >= 0) by {
        assert(rest[k] == path[k + 1]);
    }
    if path.len() > 1 {
        assert(rest[0] == path[1]);
        lemma_container_takes(rest);
    } else {
        assert(at_path(v, rest) == Some(v));
    }
    match (path[0], cur) {
        (Step::Field(name), Json::Obj(entries)) => {
            let start = match lookup(entries, name) {
                Some(c) => c,
                None => container(path[1]),
            };
            let below = if path.len() <= 1 {
                v
            } else {
                placed(start, rest, v)
            };
            lemma_put_same(entries, name, below);
            if path.len() > 1 {
                lemma_placed_reads_back(start, rest, v);
            }
        },
        (Step::Index(i), Json::Arr(items)) => {
            assert(path[0] matches Step::Index(i) && i >= 0);
            let slots = padded(items, i + 1);
            let start = if slots[i] is Null {
                container(path[1])
            } else {
                slots[i]
            };
            let below = if path.len() <= 1 {
                v
            } else {
                placed(start, rest, v)
            };
            if i < items.len() {
                assert(slots[i] == items[i]);
            }
            assert(slots.update(i, below)[i] == below);
            if path.len() > 1 {
                lemma_placed_reads_back(start, rest, v);
            }
        },
        _ => {},
    }
}

/// Writing at a path changes nothing at a path that parts from it.
pub proof fn law_writing_keeps_other_paths(
    target: Json,
    path: Seq<Step>,
    v: Json,
    other: Seq<Step>,
    at: int,
)
    requires
        0 <= at < path.len(),
        at < other.len(),
        path.take(at) == other.take(at),
        path[at] != other[at],
        at_path(target, other) is Some,
        forall|k: int|
            0 <= k < path.len() ==> ((#[trigger] path[k]) matches Step::Index(i) ==> i >= 0),
    ensures
        at_path(with_path(target, path, v), other) == at_path(target, other),
{
    assert(child(target, other[0]) is Some);
    lemma_placed_keeps_others(target, path, v, other, at);
}

proof fn lemma_placed_keeps_others(
    cur: Json,
    path: Seq<Step>,
    v: Json,
    other: Seq<Step>,
    at: int,
)
    requires
        0 <= at < path.len(),
        at < other.len(),
        path.take(at) == other.take(at),
        path[at] != other[at],
        at_path(cur, other) is Some,
        forall|k: int|
            0 <= k < path.len() ==> ((#[trigger] path[k]) matches Step::Index(i) ==> i >= 0),
    ensures
        at_path(placed(cur, path, v), other) == at_path(cur, other),
    decreases path.len(),
{
    let rest = path.drop_first();
    let orest = other.drop_first();
    assert forall|k: int| 0 <= k < rest.len() implies ((#[trigger] rest[k]) matches Step::Index(i)
        ==> i >= 0) by {
        assert(rest[k] == path[k + 1]);
    }
    if at > 0 {
        assert(path.take(at)[0] == path[0] && other.take(at)[0] == other[0]);
        assert(rest.take(at - 1) =~= path.take(at).drop_first());
        assert(orest.take(at - 1) =~= other.take(at).drop_first());
        assert(rest[at - 1] == path[at] && orest[at - 1] == other[at]);
    }
    match (path[0], cur) {
        (Step::Field(name), Json::Obj(entries)) => {
            let start = match lookup(entries, name) {
                Some(c) => c,
                None => container(path[1]),
            };
            let below = if path.len() <= 1 {
                v
            } else {
                placed(start, rest, v)
            };
            lemma_put_same(entries, name, below);
            if at == 0 {
                if let Step::Field(oname) = other[0] {
                    lemma_put_other(entries, name, below, oname);
                }
            } else {
                lemma_placed_keeps_others(start, rest, v, orest, at - 1);
            }
        },
        (Step::Index(i), Json::Arr(items)) => {
            assert(path[0] matches Step::Index(i) && i >= 0);
            let slots = padded(items, i + 1);
            let start = if slots[i] is Null {
                container(path[1])
            } else {
                slots[i]
            };
            let below = if path.len() <= 1 {
                v
            } else {
                placed(start, rest, v)
            };
            let after = slots.update(i, below);
            if let Step::Index(oi) = other[0] {
                assert(slots[oi] == items[oi]);
                if at == 0 {
                    assert(after[oi] == items[oi]);
                } else {
                    assert(oi == i);
                    assert(child(cur, other[0]) == Some(items[i]));
                    assert(at_path(items[i], orest) is Some);
                    assert(child(items[i], orest[0]) is Some);
                    lemma_placed_keeps_others(start, rest, v, orest, at - 1);
                    assert(after[i] == below);
                }
            }
        },
        _ => {},
    }
}

/// Whether `t` holds nothing but parts of `s`: `t` is `s`, or both are
/// objects and each entry of `t` is a part of the entry of `s` of that
/// name, or both are arrays and each slot of `t` is null or a part of the
/// slot of `s` there.
pub open spec fn part_of(t: Json, s: Json) -> bool
    decreases t,
{
    t == s || match (t, s) {
        (Json::Obj(te), Json::Obj(se)) => forall|i: int|
            #![trigger te[i]]
            0 <= i < te.len() ==> has_key(se, te[i].0) && part_of(
                te[i].1,
                lookup(se, te[i].0)->0,
            ),
        (Json::Arr(ta), Json::Arr(sa)) => ta.len() <= sa.len() && forall|i: int|
            #![trigger ta[i]]
            0 <= i < ta.len() ==> ta[i] is Null || part_of(ta[i], sa[i]),
        _ => false,
    }
}

/// Writing a sub-value of `s` into a part of `s`, at the path it has in
/// `s`, gives a part of `s` that holds it there.
proof fn lemma_placed_part(t: Json, s: Json, path: Seq<Step>)
    requires
        path.len() > 0,
        part_of(t, s),
        at_path(s, path) is Some,
    ensures
        part_of(placed(t, path, at_path(s, path)->0), s),
        at_path(placed(t, path, at_path(s, path)->0), path) == at_path(s, path),
    decreases path.len(),
{
    let v = at_path(s, path)->0;
    let rest = path.drop_first();
    if t == s {
        lemma_placed_identity(s, path);
    } else {
        match (path[0], t, s) {
            (Step::Field(name), Json::Obj(te), Json::Obj(se)) => {
                let sc = lookup(se, name)->0;
                lemma_position(te, name);
                let start = match lookup(te, name) {
                    Some(c) => c,
                    None => container(path[1]),
                };
                let below = if path.len() <= 1 {
                    v
                } else {
                    placed(start, rest, v)
                };
                if path.len() > 1 {
                    assert(child(sc, rest[0]) is Some);
                    assert(path[1] == rest[0]);
                    if lookup(te, name) is Some {
                        assert(te[position(te, name)].0 == name);
                    }
                    assert(part_of(start, sc));
                    lemma_placed_part(start, sc, rest);
                } else {
                    assert(at_path(sc, rest) == Some(sc));
                }
                lemma_put_same(te, name, below);
                let after = put(te, name, below);
                assert forall|i: int|
                    #![trigger after[i]]
                    0 <= i < after.len() implies has_key(se, after[i].0) && part_of(
                    after[i].1,
                    lookup(se, after[i].0)->0,
                ) by {
                    if has_key(te, name) && i == position(te, name) {
                    } else if i < te.len() {
                        assert(after[i] == te[i]);
                    }
                }
            },
            (Step::Index(i), Json::Arr(ta), Json::Arr(sa)) => {
                let slots = padded(ta, i + 1);
                let start = if slots[i] is Null {
                    container(path[1])
                } else {
                    slots[i]
                };
                let below = if path.len() <= 1 {
                    v
                } else {
                    placed(start, rest, v)
                };
                if i < ta.len() {
                    assert(slots[i] == ta[i]);
                }
                if path.len() > 1 {
                    assert(child(sa[i], rest[0]) is Some);
                    assert(path[1] == rest[0]);
                    assert(part_of(start, sa[i]));
                    lemma_placed_part(start, sa[i], rest);
                } else {
                    assert(at_path(sa[i], rest) == Some(sa[i]));
                }
                let after = slots.update(i, below);
                assert forall|j: int|
                    #![trigger after[j]]
                    0 <= j < after.len() implies after[j] is Null || part_of(after[j], sa[j]) by {
                    if j != i && j < ta.len() {
                        assert(after[j] == ta[j]);
                    }
                }
                assert(after[i] == below);
            },
            _ => {},
        }
    }
}

/// Writing a sub-value of `s` into a part of `s` keeps what the part
/// already holds of `s` at another path.
proof fn lemma_placed_keeps(t: Json, s: Json, path: Seq<Step>, other: Seq<Step>)
    requires
        path.len() > 0,
        part_of(t, s),
        at_path(s, path) is Some,
        at_path(s, other) is Some,
        at_path(t, other) == at_path(s, other),
    ensures
        at_path(placed(t, path, at_path(s, path)->0), other) == at_path(s, other),
    decreases path.len(),
{
    let v = at_path(s, path)->0;
    let rest = path.drop_first();
    if t == s {
        lemma_placed_identity(s, path);
    } else if other.len() == 0 {
    } else {
        let orest = other.drop_first();
        match (path[0], t, s) {
            (Step::Field(name), Json::Obj(te), Json::Obj(se)) => {
                let sc = lookup(se, name)->0;
                lemma_position(te, name);
                let start = match lookup(te, name) {
                    Some(c) => c,
                    None => container(path[1]),
                };
                let below = if path.len() <= 1 {
                    v
                } else {
                    placed(start, rest, v)
                };
                lemma_put_same(te, name, below);
                if other[0] == path[0] {
                    assert(te[position(te, name)].0 == name);
                    if path.len() > 1 {
                        assert(child(sc, rest[0]) is Some);
                        lemma_placed_keeps(start, sc, rest, orest);
                    } else {
                        assert(at_path(sc, rest) == Some(sc));
                    }
                } else {
                    if let Step::Field(oname) = other[0] {
                        lemma_put_other(te, name, below, oname);
                    }
                }
            },
            (Step::Index(i), Json::Arr(ta), Json::Arr(sa)) => {
                let slots = padded(ta, i + 1);
                let start = if slots[i] is Null {
                    container(path[1])
                } else {
                    slots[i]
                };
                let below = if path.len() <= 1 {
                    v
                } else {
                    placed(start, rest, v)
                };
                let after = slots.update(i, below);
                assert(after[i] == below);
                if let Step::Index(oi) = other[0] {
                    assert(slots[oi] == ta[oi]);
                    if oi == i {
                        if path.len() > 1 {
                            assert(child(sa[i], rest[0]) is Some);
                            assert(at_path(ta[i], orest) == at_path(sa[i], orest));
                            if ta[i] is Null {
                                assert(orest.len() == 0 ==> sa[i] is Null);
                                assert(orest.len() > 0 ==> child(ta[i], orest[0]) is None);
                            }
                            lemma_placed_keeps(start, sa[i], rest, orest);
                        } else {
                            assert(at_path(sa[i], rest) == Some(sa[i]));
                        }
                    } else {
                        assert(after[oi] == ta[oi]);
                    }
                }
            },
            _ => {},
        }
    }
}

/// What is picked before the end holds every resolving path seen so far,
/// and nothing but parts of the source.
proof fn lemma_picked_upto(source: Json, paths: Seq<Seq<Step>>, n: int, m: int)
    requires
        0 <= n <= paths.len(),
        forall|k: int| 0 <= k < n ==> (#[trigger] paths[k]).len() > 0,
    ensures
        picked_upto(source, paths, n) is Null || part_of(picked_upto(source, paths, n), source),
        0 <= m < n && at_path(source, paths[m]) is Some ==> at_path(
            picked_upto(source, paths, n),
            paths[m],
        ) == at_path(source, paths[m]),
    decreases n,
{
    if n > 0 {
        lemma_picked_upto(source, paths, n - 1, m);
        let target = picked_upto(source, paths, n - 1);
        let path = paths[n - 1];
        if let Some(v) = at_path(source, path) {
            let start = if target is Null {
                container(path[0])
            } else {
                target
            };
            assert(child(source, path[0]) is Some);
            assert(part_of(start, source));
            lemma_placed_part(start, source, path);
            if 0 <= m < n - 1 && at_path(source, paths[m]) is Some {
                if target is Null {
                    assert(child(target, paths[m][0]) is None);
                }
                lemma_placed_keeps(start, source, path, paths[m]);
            }
        }
    }
}

/// Every given path that resolves in the source resolves to the same
/// sub-value in what was picked.
pub proof fn law_pick_keeps_paths(source: Json, paths: Seq<Seq<Step>>, m: int)
    requires
        0 <= m < paths.len(),
        at_path(source, paths[m]) is Some,
    ensures
        at_path(picked(source, paths), paths[m]) == at_path(source, paths[m]),
{
    if !(exists|k: int| 0 <= k < paths.len() && (#[trigger] paths[k]).len() == 0) {
        lemma_picked_upto(source, paths, paths.len() as int, m);
        let target = picked_upto(source, paths, paths.len() as int);
        if target is Null {
            assert(child(target, paths[m][0]) is None);
        }
    }
}

/// What was picked holds nothing but parts of the source, or is the empty
/// object where no path resolves.
pub proof fn law_pick_adds_nothing(source: Json, paths: Seq<Seq<Step>>)
    ensures
        part_of(picked(source, paths), source) || picked(source, paths) == Json::Obj(Seq::empty()),
{
    if !(exists|k: int| 0 <= k < paths.len() && (#[trigger] paths[k]).len() == 0) {
        lemma_picked_upto(source, paths, paths.len() as int, 0);
    }
}

/// Where no path resolves, what is picked is the empty object.
pub proof fn law_pick_of_nothing(source: Json, paths: Seq<Seq<Step>>)
    requires
        forall|k: int| 0 <= k < paths.len() ==> at_path(source, #[trigger] paths[k]) is None,
    ensures
        picked(source, paths) == Json::Obj(Seq::empty()),
{
    lemma_picks_nothing(source, paths, paths.len() as int);
}

proof fn lemma_picks_nothing(source: Json, paths: Seq<Seq<Step>>, n: int)
    requires
        0 <= n <= paths.len(),
        forall|k: int| 0 <= k < paths.len() ==> at_path(source, #[trigger] paths[k]) is None,
    ensures
        picked_upto(source, paths, n) is Null,
    decreases n,
{
    if n > 0 {
        lemma_picks_nothing(source, paths, n - 1);
    }
}

/// Removing at a path that does not resolve changes nothing.
pub proof fn law_remove_missing_is_identity(v: Json, path: Seq<Step>)
    requires
        at_path(v, path) is None,
    ensures
        without_path(v, path) == v,
    decreases path.len(),
{
    if path.len() == 1 {
        match child(v, path[0]) {
            Some(c) => {
                assert(at_path(c, path.drop_first()) == Some(c));
            },
            None => {},
        }
    } else if path.len() > 1 {
        if let Some(c) = child(v, path[0]) {
            law_remove_missing_is_identity(c, path.drop_first());
            match (path[0], v) {
                (Step::Field(name), Json::Obj(entries)) => {
                    lemma_put_identity(entries, name);
                },
                (Step::Index(i), Json::Arr(items)) => {
                    assert(items.update(i, items[i]) =~= items);
                },
                _ => {},
            }
        }
    }
}

/// After the field at a path is removed, the path no longer resolves.
pub proof fn law_removed_field_is_gone(v: Json, path: Seq<Step>)
    requires
        distinct_keys(v),
        path.len() > 0,
        path.last() is Field,
    ensures
        at_path(without_path(v, path), path) is None,
    decreases path.len(),
{
    let rest = path.drop_first();
    match (path[0], v) {
        (Step::Field(name), Json::Obj(entries)) => {
            lemma_position(entries, name);
            let p = position(entries, name);
            if path.len() == 1 {
                let after = without(entries, name);
                if has_key(entries, name) {
                    assert forall|j: int| 0 <= j < after.len() implies (#[trigger] after[j]).0
                        != name by {
                        if j < p {
                            assert(after[j] == entries[j]);
                        } else {
                            assert(after[j] == entries[j + 1]);
                            assert(entries[p].0 != entries[j + 1].0);
                        }
                    }
                    lemma_position_is(after, name, after.len() as int);
                }
            } else if let Some(c) = child(v, path[0]) {
                assert(distinct_keys(entries[p].1));
                law_removed_field_is_gone(c, rest);
                lemma_put_same(entries, name, without_path(c, rest));
            }
        },
        (Step::Index(i), Json::Arr(items)) => {
            if path.len() > 1 && 0 <= i < items.len() {
                assert(distinct_keys(items[i]));
                law_removed_field_is_gone(items[i], rest);
            }
        },
        _ => {},
    }
}

/// Removing at a path leaves alone every path that parts from it before an
/// item of an array is taken out. (Taking one out moves those behind it.)
pub proof fn law_remove_keeps_other_paths(v: Json, path: Seq<Step>, other: Seq<Step>, at: int)
    requires
        0 <= at < path.len(),
        at < other.len(),
        path.take(at) == other.take(at),
        path[at] != other[at],
        path[at] is Index ==> at + 1 < path.len(),
    ensures
        at_path(without_path(v, path), other) == at_path(v, other),
    decreases path.len(),
{
    let rest = path.drop_first();
    let orest = other.drop_first();
    if at == 0 {
        match (path[0], v) {
            (Step::Field(name), Json::Obj(entries)) => {
                if let Step::Field(oname) = other[0] {
                    if path.len() == 1 {
                        lemma_without_other(entries, name, oname);
                    } else if let Some(c) = child(v, path[0]) {
                        lemma_put_other(entries, name, without_path(c, rest), oname);
                    }
                }
            },
            _ => {},
        }
    } else {
        assert(path.take(at)[0] == path[0] && other.take(at)[0] == other[0]);
        assert(path[0] == other[0]);
        if let Some(c) = child(v, path[0]) {
            assert(rest.take(at - 1) =~= path.take(at).drop_first());
            assert(orest.take(at - 1) =~= other.take(at).drop_first());
            law_remove_keeps_other_paths(c, rest, orest, at - 1);
            match (path[0], v) {
                (Step::Field(name), Json::Obj(entries)) => {
                    lemma_put_same(entries, name, without_path(c, rest));
                },
                _ => {},
            }
        }
    }
}

/// Two values that differ only in what is at a path become equal once the
/// path is removed.
pub proof fn law_remove_forgets_what_was_there(v: Json, path: Seq<Step>, w: Json)
    requires
        path.len() > 0,
        at_path(v, path) is Some,
    ensures
        without_path(with_path(v, path, w), path) == without_path(v, path),
{
    lemma_remove_forgets(v, path, w);
}

proof fn lemma_remove_forgets(v: Json, path: Seq<Step>, w: Json)
    requires
        path.len() > 0,
        at_path(v, path) is Some,
    ensures
        without_path(placed(v, path, w), path) == without_path(v, path),
    decreases path.len(),
{
    let rest = path.drop_first();
    let c = child(v, path[0])->0;
    let below = if path.len() <= 1 {
        w
    } else {
        placed(c, rest, w)
    };
    assert(at_path(c, rest) is Some);
    if path.len() > 1 {
        assert(child(c, rest[0]) is Some);
        lemma_remove_forgets(c, rest, w);
    }
    match (path[0], v) {
        (Step::Field(name), Json::Obj(entries)) => {
            let after = put(entries, name, below);
            let p = position(entries, name);
            lemma_position(entries, name);
            assert forall|j: int| 0 <= j < p implies (#[trigger] after[j]).0 != name by {
                assert(after[j] == entries[j]);
            }
            lemma_position_is(after, name, p);
            assert(placed(v, path, w) == Json::Obj(after));
            if path.len() == 1 {
                assert(without(after, name) =~= without(entries, name));
            } else {
                let x = without_path(c, rest);
                assert(put(after, name, x) =~= put(entries, name, x));
            }
        },
        (Step::Index(i), Json::Arr(items)) => {
            let after = items.update(i, below);
            assert(padded(items, i + 1) == items);
            assert(placed(v, path, w) == Json::Arr(after));
            if path.len() == 1 {
                assert(after.remove(i) =~= items.remove(i));
            } else {
                let x = without_path(c, rest);
                assert(after.update(i, x) =~= items.update(i, x));
            }
        },
        _ => {},
    }
}

proof fn lemma_put_distinct(entries: Seq<(Seq<char>, Json)>, key: Seq<char>, v: Json)
    requires
        distinct_keys(Json::Obj(entries)),
        distinct_keys(v),
    ensures
        distinct_keys(Json::Obj(put(entries, key, v))),
{
    let after = put(entries, key, v);
    let p = position(entries, key);
    lemma_position(entries, key);
    assert forall|i: int, j: int|
        #![trigger after[i], after[j]]
        0 <= i < j < after.len() implies after[i].0 != after[j].0 by {
        if i < entries.len() && j < entries.len() {
            assert(entries[i].0 != entries[j].0);
        } else {
            assert(entries[i].0 != key);
        }
    }
    assert forall|i: int| #![trigger after[i]] 0 <= i < after.len() implies distinct_keys(
        after[i].1,
    ) by {
        if i < entries.len() {
            assert(distinct_keys(entries[i].1));
        }
    }
}

proof fn lemma_update_distinct(arr: Json, i: int, v: Json)
    requires
        arr is Arr,
        distinct_keys(arr),
        distinct_keys(v),
        0 <= i < arr->Arr_0.len(),
    ensures
        distinct_keys(Json::Arr(arr->Arr_0.update(i, v))),
{
    let items = arr->Arr_0;
    let after = items.update(i, v);
    assert forall|j: int| #![trigger after[j]] 0 <= j < after.len() implies distinct_keys(
        after[j],
    ) by {
        if j != i {
            assert(after[j] == items[j]);
            assert(distinct_keys(items[j]));
        }
    }
}

pub proof fn lemma_child_distinct(v: Json, step: Step)
    requires
        distinct_keys(v),
        child(v, step) is Some,
    ensures
        distinct_keys(child(v, step)->0),
{
    match (step, v) {
        (Step::Field(name), Json::Obj(entries)) => {
            lemma_position(entries, name);
            assert(distinct_keys(entries[position(entries, name)].1));
        },
        (Step::Index(i), Json::Arr(items)) => {
            assert(distinct_keys(items[i]));
        },
        _ => {},
    }
}

/// Removing at a path introduces no repeated key.
pub proof fn law_remove_keeps_keys_distinct(v: Json, path: Seq<Step>)
    requires
        distinct_keys(v),
    ensures
        distinct_keys(without_path(v, path)),
    decreases path.len(),
{
    if path.len() == 1 {
        match (path[0], v) {
            (Step::Field(name), Json::Obj(entries)) => {
                if has_key(entries, name) {
                    lemma_position(entries, name);
                    let p = position(entries, name);
                    let after = without(entries, name);
                    assert forall|i: int, j: int|
                        #![trigger after[i], after[j]]
                        0 <= i < j < after.len() implies after[i].0 != after[j].0 by {
                        let a = if i < p { i } else { i + 1 };
                        let b = if j < p { j } else { j + 1 };
                        assert(after[i] == entries[a] && after[j] == entries[b]);
                        assert(entries[a].0 != entries[b].0);
                    }
                    assert forall|i: int|
                        #![trigger after[i]]
                        0 <= i < after.len() implies distinct_keys(after[i].1) by {
                        let a = if i < p { i } else { i + 1 };
                        assert(after[i] == entries[a]);
                        assert(distinct_keys(entries[a].1));
                    }
                }
            },
            (Step::Index(k), Json::Arr(items)) => {
                if 0 <= k < items.len() {
                    let after = items.remove(k);
                    assert forall|i: int|
                        #![trigger after[i]]
                        0 <= i < after.len() implies distinct_keys(after[i]) by {
                        let a = if i < k { i } else { i + 1 };
                        assert(after[i] == items[a]);
                        assert(distinct_keys(items[a]));
                    }
                }
            },
            _ => {},
        }
    } else if path.len() > 1 {
        if let Some(c) = child(v, path[0]) {
            lemma_child_distinct(v, path[0]);
            law_remove_keeps_keys_distinct(c, path.drop_first());
            match (path[0], v) {
                (Step::Field(name), Json::Obj(entries)) => {
                    lemma_put_distinct(entries, name, without_path(c, path.drop_first()));
                },
                (Step::Index(i), Json::Arr(items)) => {
                    lemma_update_distinct(v, i, without_path(c, path.drop_first()));
                },
                _ => {},
            }
        }
    }
}

pub proof fn lemma_at_path_distinct(v: Json, path: Seq<Step>)
    requires
        distinct_keys(v),
        at_path(v, path) is Some,
    ensures
        distinct_keys(at_path(v, path)->0),
    decreases path.len(),
{
    if path.len() > 0 {
        lemma_child_distinct(v, path[0]);
        lemma_at_path_distinct(child(v, path[0])->0, path.drop_first());
    }
}

pub proof fn lemma_placed_distinct(cur: Json, path: Seq<Step>, v: Json)
    requires
        path.len() > 0,
        distinct_keys(cur),
        distinct_keys(v),
        forall|k: int|
            0 <= k < path.len() ==> ((#[trigger] path[k]) matches Step::Index(i) ==> 0 <= i),
    ensures
        distinct_keys(placed(cur, path, v)),
    decreases path.len(),
{
    let rest = path.drop_first();
    assert forall|k: int| 0 <= k < rest.len() implies ((#[trigger] rest[k]) matches Step::Index(
        i,
    ) ==> 0 <= i) by {
        assert(rest[k] == path[k + 1]);
    }
    match (path[0], cur) {
        (Step::Field(name), Json::Obj(entries)) => {
            let start = match lookup(entries, name) {
                Some(c) => c,
                None => container(path[1]),
            };
            if path.len() > 1 {
                if lookup(entries, name) is Some {
                    lemma_child_distinct(cur, path[0]);
                }
                lemma_placed_distinct(start, rest, v);
                lemma_put_distinct(entries, name, placed(start, rest, v));
            } else {
                lemma_put_distinct(entries, name, v);
            }
        },
        (Step::Index(i), Json::Arr(items)) => {
            let slots = padded(items, i + 1);
            assert(distinct_keys(Json::Arr(slots))) by {
                assert forall|j: int|
                    #![trigger slots[j]]
                    0 <= j < slots.len() implies distinct_keys(slots[j]) by {
                    if j < items.len() {
                        assert(slots[j] == items[j]);
                    }
                }
            }
            let start = if slots[i] is Null {
                container(path[1])
            } else {
                slots[i]
            };
            assert(distinct_keys(slots[i]));
            if path.len() > 1 {
                lemma_placed_distinct(start, rest, v);
                lemma_update_distinct(Json::Arr(slots), i, placed(start, rest, v));
            } else {
                lemma_update_distinct(Json::Arr(slots), i, v);
            }
        },
        _ => {},
    }
}

pub proof fn lemma_resolving_indexes(v: Json, path: Seq<Step>, k: int)
    requires
        at_path(v, path) is Some,
        0 <= k < path.len(),
    ensures
        path[k] matches Step::Index(i) ==> 0 <= i,
    decreases path.len(),
{
    if k > 0 {
        lemma_resolving_indexes(child(v, path[0])->0, path.drop_first(), k - 1);
    }
}

pub proof fn lemma_picked_upto_distinct(source: Json, paths: Seq<Seq<Step>>, n: int)
    requires
        distinct_keys(source),
        0 <= n <= paths.len(),
        forall|k: int| 0 <= k < n ==> (#[trigger] paths[k]).len() > 0,
    ensures
        distinct_keys(picked_upto(source, paths, n)),
    decreases n,
{
    if n > 0 {
        lemma_picked_upto_distinct(source, paths, n - 1);
        let path = paths[n - 1];
        if let Some(v) = at_path(source, path) {
            lemma_at_path_distinct(source, path);
            let target = picked_upto(source, paths, n - 1);
            let start = if target is Null {
                container(path[0])
            } else {
                target
            };
            assert forall|k: int| 0 <= k < path.len() implies ((#[trigger] path[k]) matches
                Step::Index(i) ==> 0 <= i) by {
                lemma_resolving_indexes(source, path, k);
            }
            lemma_placed_distinct(start, path, v);
        }
    }
}

/// Picking introduces no repeated key.
pub proof fn law_pick_keeps_keys_distinct(source: Json, paths: Seq<Seq<Step>>)
    requires
        distinct_keys(source),
    ensures
        distinct_keys(picked(source, paths)),
{
    if !(exists|k: int| 0 <= k < paths.len() && (#[trigger] paths[k]).len() == 0) {
        lemma_picked_upto_distinct(source, paths, paths.len() as int);
    }
}

} // verus!
