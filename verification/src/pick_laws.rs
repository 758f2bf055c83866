//! What picking keeps, said of the result alone: which paths were given
//! matters, not in which order, how often, or with which missing ones.

use vstd::prelude::*;
use vstd::seq_lib::*;
use vstd::set_lib::*;
use crate::jq_laws::{
    lemma_at_path_distinct, lemma_placed_identity, lemma_put_other, lemma_put_same,
};
use crate::jq_path::{at_path, child, container, padded, picked, picked_upto, placed, Step};
use crate::json::{
    distinct_keys, distinct_names, has_key, lemma_position, lookup, position, put, same_json, Json,
};
use crate::json_laws::lemma_names_distinct;
use crate::json_text::names;
use crate::order_laws::{lemma_key_is_name, lemma_own_key};

verus! {

/// Whether the path `path` goes through `at`, or ends there.
pub open spec fn leads_to(at: Seq<Step>, path: Seq<Step>) -> bool {
    at.len() <= path.len() && path.take(at.len() as int) == at
}

/// Whether a path that resolves in `source` goes through `at`, or ends
/// there.
pub open spec fn reaches(source: Json, paths: Seq<Seq<Step>>, at: Seq<Step>) -> bool {
    exists|k: int|
        0 <= k < paths.len() && leads_to(at, #[trigger] paths[k]) && at_path(source, paths[k])
            is Some
}

/// Whether `t` is what the paths pick at `at` out of `source`: all that is
/// there where a path ends at `at`, and otherwise those entries and slots
/// that a path reaches, with nulls in the slots in between.
pub open spec fn picked_at(t: Json, source: Json, paths: Seq<Seq<Step>>, at: Seq<Step>) -> bool
    decreases t,
{
    if paths.contains(at) {
        at_path(source, at) == Some(t)
    } else {
        match (t, at_path(source, at)) {
            (Json::Obj(entries), Some(Json::Obj(_))) => {
                &&& distinct_names(entries)
                &&& forall|key: Seq<char>| #[trigger]
                    has_key(entries, key) <==> reaches(source, paths, at.push(Step::Field(key)))
                &&& forall|i: int|
                    #![trigger entries[i]]
                    0 <= i < entries.len() ==> picked_at(
                        entries[i].1,
                        source,
                        paths,
                        at.push(Step::Field(entries[i].0)),
                    )
            },
            (Json::Arr(items), Some(Json::Arr(_))) => {
                &&& items.len() > 0 ==> reaches(
                    source,
                    paths,
                    at.push(Step::Index(items.len() - 1)),
                )
                &&& forall|i: int|
                    i >= items.len() ==> !reaches(source, paths, #[trigger] at.push(Step::Index(i)))
                &&& forall|i: int|
                    #![trigger items[i]]
                    0 <= i < items.len() ==> if reaches(source, paths, at.push(Step::Index(i))) {
                        picked_at(items[i], source, paths, at.push(Step::Index(i)))
                    } else {
                        items[i] is Null
                    }
            },
            _ => false,
        }
    }
}

/// Whether `t` is what the paths pick out of `source`: the empty object
/// where none resolves.
pub open spec fn picks(t: Json, source: Json, paths: Seq<Seq<Step>>) -> bool {
    if reaches(source, paths, Seq::empty()) {
        picked_at(t, source, paths, Seq::empty())
    } else {
        t == Json::Obj(Seq::empty())
    }
}

/// A path resolves to what its rest resolves to where its start ends.
pub proof fn lemma_at_path_split(v: Json, path: Seq<Step>, n: int)
    requires
        0 <= n <= path.len(),
    ensures
        at_path(v, path) == match at_path(v, path.take(n)) {
            Some(c) => at_path(c, path.skip(n)),
            None => None,
        },
    decreases n,
{
    if n == 0 {
        assert(path.skip(0) =~= path);
    } else {
        let start = path.take(n);
        assert(start.drop_first() =~= path.drop_first().take(n - 1));
        assert(path.skip(n) =~= path.drop_first().skip(n - 1));
        if let Some(c) = child(v, path[0]) {
            lemma_at_path_split(c, path.drop_first(), n - 1);
        }
    }
}

/// One more step leads one level down.
proof fn lemma_at_path_push(v: Json, at: Seq<Step>, step: Step)
    ensures
        at_path(v, at.push(step)) == match at_path(v, at) {
            Some(c) => child(c, step),
            None => None,
        },
{
    let path = at.push(step);
    lemma_at_path_split(v, path, at.len() as int);
    assert(path.take(at.len() as int) =~= at);
    let rest = path.skip(at.len() as int);
    assert(rest =~= seq![step]);
    if let Some(c) = at_path(v, at) {
        if let Some(d) = child(c, step) {
            assert(at_path(d, rest.drop_first()) == Some(d));
        }
    }
}

/// A path that goes through one step more goes through `at`.
proof fn lemma_leads_up(at: Seq<Step>, step: Step, path: Seq<Step>)
    requires
        leads_to(at.push(step), path),
    ensures
        leads_to(at, path),
        path[at.len() as int] == step,
{
    let n = at.len() as int;
    assert(path.take(n) =~= path.take(n + 1).take(n));
    assert(at.push(step).take(n) =~= at);
    assert(path.take(n + 1)[n] == step);
}

/// The step that a path takes behind `at`.
proof fn lemma_leads_down(at: Seq<Step>, path: Seq<Step>)
    requires
        leads_to(at, path),
        at.len() < path.len(),
    ensures
        leads_to(at.push(path[at.len() as int]), path),
{
    let n = at.len() as int;
    assert(path.take(n + 1) =~= path.take(n).push(path[n]));
}

/// What is reached one step further is reached.
proof fn lemma_reaches_up(source: Json, paths: Seq<Seq<Step>>, at: Seq<Step>, step: Step)
    requires
        reaches(source, paths, at.push(step)),
    ensures
        reaches(source, paths, at),
        at_path(source, at) is Some,
        child(at_path(source, at)->0, step) is Some,
{
    let k = choose|k: int|
        0 <= k < paths.len() && leads_to(at.push(step), #[trigger] paths[k]) && at_path(
            source,
            paths[k],
        ) is Some;
    lemma_leads_up(at, step, paths[k]);
    lemma_at_path_split(source, paths[k], at.len() as int + 1);
    lemma_at_path_push(source, at, step);
}

/// One path more reaches what the others reach and where it leads itself.
proof fn lemma_reaches_push(
    source: Json,
    paths: Seq<Seq<Step>>,
    path: Seq<Step>,
    at: Seq<Step>,
)
    ensures
        reaches(source, paths.push(path), at) <==> (reaches(source, paths, at) || (leads_to(
            at,
            path,
        ) && at_path(source, path) is Some)),
{
    let all = paths.push(path);
    if reaches(source, paths, at) {
        let k = choose|k: int|
            0 <= k < paths.len() && leads_to(at, #[trigger] paths[k]) && at_path(source, paths[k])
                is Some;
        assert(all[k] == paths[k]);
    }
    if leads_to(at, path) && at_path(source, path) is Some {
        assert(all[paths.len() as int] == path);
    }
    if reaches(source, all, at) {
        let k = choose|k: int|
            0 <= k < all.len() && leads_to(at, #[trigger] all[k]) && at_path(source, all[k])
                is Some;
        if k < paths.len() {
            assert(all[k] == paths[k]);
        }
    }
}

/// One path more ends where the others end and where it ends itself.
proof fn lemma_contains_push(paths: Seq<Seq<Step>>, path: Seq<Step>, at: Seq<Step>)
    ensures
        paths.push(path).contains(at) <==> (paths.contains(at) || at == path),
{
    let all = paths.push(path);
    if paths.contains(at) {
        let k = choose|k: int| 0 <= k < paths.len() && paths[k] == at;
        assert(all[k] == at);
    }
    if at == path {
        assert(all[paths.len() as int] == at);
    }
    if all.contains(at) {
        let k = choose|k: int| 0 <= k < all.len() && all[k] == at;
        if k < paths.len() {
            assert(paths[k] == at);
        }
    }
}

/// A path that does not resolve, or does not go through `at`, changes
/// nothing of what is picked there.
proof fn lemma_elsewhere(
    t: Json,
    source: Json,
    paths: Seq<Seq<Step>>,
    path: Seq<Step>,
    at: Seq<Step>,
)
    requires
        picked_at(t, source, paths, at),
        !leads_to(at, path) || at_path(source, path) is None,
    ensures
        picked_at(t, source, paths.push(path), at),
    decreases t,
{
    let all = paths.push(path);
    lemma_contains_push(paths, path, at);
    assert(path.take(path.len() as int) =~= path);
    assert forall|step: Step| #![trigger at.push(step)] (!leads_to(at.push(step), path) || at_path(
        source,
        path,
    ) is None) && (reaches(source, all, at.push(step)) <==> reaches(
        source,
        paths,
        at.push(step),
    )) by {
        if leads_to(at.push(step), path) {
            lemma_leads_up(at, step, path);
        }
        lemma_reaches_push(source, paths, path, at.push(step));
    }
    if !paths.contains(at) {
        match t {
            Json::Obj(entries) => {
                assert forall|i: int| #![trigger entries[i]] 0 <= i < entries.len() implies picked_at(
                    entries[i].1,
                    source,
                    all,
                    at.push(Step::Field(entries[i].0)),
                ) by {
                    lemma_elsewhere(
                        entries[i].1,
                        source,
                        paths,
                        path,
                        at.push(Step::Field(entries[i].0)),
                    );
                }
            },
            Json::Arr(items) => {
                assert forall|i: int|
                    #![trigger items[i]]
                    0 <= i < items.len() implies if reaches(source, all, at.push(Step::Index(i))) {
                    picked_at(items[i], source, all, at.push(Step::Index(i)))
                } else {
                    items[i] is Null
                } by {
                    if reaches(source, paths, at.push(Step::Index(i))) {
                        lemma_elsewhere(items[i], source, paths, path, at.push(Step::Index(i)));
                    }
                }
            },
            _ => {},
        }
    }
}

/// An empty container is what is picked where no path leads.
proof fn lemma_container_picks(source: Json, paths: Seq<Seq<Step>>, at: Seq<Step>, step: Step)
    requires
        at_path(source, at) is Some,
        child(at_path(source, at)->0, step) is Some,
        !reaches(source, paths, at),
    ensures
        picked_at(container(step), source, paths, at),
{
    if paths.contains(at) {
        let k = choose|k: int| 0 <= k < paths.len() && paths[k] == at;
        assert(at.take(at.len() as int) =~= at);
        assert(leads_to(at, paths[k]));
    }
    assert forall|next: Step| !reaches(source, paths, #[trigger] at.push(next)) by {
        if reaches(source, paths, at.push(next)) {
            lemma_reaches_up(source, paths, at, next);
        }
    }
    let none = Seq::<(Seq<char>, Json)>::empty();
    assert forall|key: Seq<char>| #[trigger] has_key(none, key) <==> reaches(
        source,
        paths,
        at.push(Step::Field(key)),
    ) by {
        lemma_position(none, key);
    }
}

proof fn lemma_put_names_distinct(entries: Seq<(Seq<char>, Json)>, key: Seq<char>, v: Json)
    requires
        distinct_names(entries),
    ensures
        distinct_names(put(entries, key, v)),
{
    let after = put(entries, key, v);
    let p = position(entries, key);
    lemma_position(entries, key);
    assert forall|i: int, j: int|
        #![trigger after[i], after[j]]
        0 <= i < j < after.len() implies after[i].0 != after[j].0 by {
        if i < entries.len() && j < entries.len() {
            assert(entries[i].0 != entries[j].0);
        }
    }
}

/// Writing what is at a path of the source into what the paths picked so
/// far gives what is picked with that path too.
#[verifier::rlimit(40)]
proof fn lemma_placed_picks(
    t: Json,
    source: Json,
    paths: Seq<Seq<Step>>,
    path: Seq<Step>,
    at: Seq<Step>,
)
    requires
        leads_to(at, path),
        at.len() < path.len(),
        at_path(source, path) is Some,
        picked_at(t, source, paths, at),
    ensures
        picked_at(
            placed(t, path.skip(at.len() as int), at_path(source, path)->0),
            source,
            paths.push(path),
            at,
        ),
    decreases path.len() - at.len(),
{
    let n = at.len() as int;
    let all = paths.push(path);
    let v = at_path(source, path)->0;
    let rest = path.skip(n);
    let step = path[n];
    let next = at.push(step);
    lemma_at_path_split(source, path, n);
    lemma_at_path_split(source, path, n + 1);
    lemma_at_path_push(source, at, step);
    lemma_leads_down(at, path);
    let s = at_path(source, at)->0;
    lemma_contains_push(paths, path, at);
    if paths.contains(at) {
        lemma_placed_identity(s, rest);
    } else {
        assert(rest.drop_first() =~= path.skip(n + 1));
        assert forall|other: Step| #![trigger at.push(other)] reaches(source, all, at.push(other))
            <==> (reaches(source, paths, at.push(other)) || other == step) by {
            lemma_reaches_push(source, paths, path, at.push(other));
            if leads_to(at.push(other), path) {
                lemma_leads_up(at, other, path);
            }
        }
        let fresh = container(path[n + 1]);
        if rest.len() > 1 {
            assert(rest[1] == path[n + 1]);
            assert(path.skip(n + 1)[0] == path[n + 1]);
            if !reaches(source, paths, next) {
                lemma_container_picks(source, paths, next, path[n + 1]);
            }
        } else {
            assert(path.take(n + 1) =~= path);
            lemma_contains_push(paths, path, next);
        }
        match (step, t) {
            (Step::Field(name), Json::Obj(entries)) => {
                lemma_position(entries, name);
                assert(has_key(entries, name) <==> reaches(source, paths, next));
                let start = match lookup(entries, name) {
                    Some(c) => c,
                    None => fresh,
                };
                let below = if rest.len() <= 1 {
                    v
                } else {
                    placed(start, rest.drop_first(), v)
                };
                if rest.len() > 1 {
                    if has_key(entries, name) {
                        assert(entries[position(entries, name)].0 == name);
                    }
                    lemma_placed_picks(start, source, paths, path, next);
                }
                assert(picked_at(below, source, all, next));
                let after = put(entries, name, below);
                lemma_put_names_distinct(entries, name, below);
                lemma_put_same(entries, name, below);
                assert forall|key: Seq<char>| #[trigger] has_key(after, key) <==> reaches(
                    source,
                    all,
                    at.push(Step::Field(key)),
                ) by {
                    if key != name {
                        lemma_put_other(entries, name, below, key);
                        assert(lookup(after, key) is Some == has_key(after, key));
                        assert(lookup(entries, key) is Some == has_key(entries, key));
                    } else {
                        assert(lookup(after, key) is Some == has_key(after, key));
                    }
                }
                assert forall|i: int| #![trigger after[i]] 0 <= i < after.len() implies picked_at(
                    after[i].1,
                    source,
                    all,
                    at.push(Step::Field(after[i].0)),
                ) by {
                    if i != position(entries, name) {
                        assert(after[i] == entries[i]);
                        lemma_own_key(entries, i);
                        let other = at.push(Step::Field(entries[i].0));
                        if leads_to(other, path) {
                            lemma_leads_up(at, Step::Field(entries[i].0), path);
                        }
                        lemma_elsewhere(entries[i].1, source, paths, path, other);
                    }
                }
                assert(placed(t, rest, v) == Json::Obj(after));
            },
            (Step::Index(k), Json::Arr(items)) => {
                let slots = padded(items, k + 1);
                let start = if slots[k] is Null {
                    fresh
                } else {
                    slots[k]
                };
                let below = if rest.len() <= 1 {
                    v
                } else {
                    placed(start, rest.drop_first(), v)
                };
                if k < items.len() {
                    assert(slots[k] == items[k]);
                }
                if rest.len() > 1 {
                    if reaches(source, paths, next) {
                        assert(k < items.len());
                        assert(picked_at(items[k], source, paths, next));
                        assert(!(items[k] is Null));
                    } else {
                        assert(slots[k] is Null);
                    }
                    lemma_placed_picks(start, source, paths, path, next);
                }
                assert(picked_at(below, source, all, next));
                let after = slots.update(k, below);
                assert(reaches(source, all, next));
                assert forall|i: int| i >= after.len() implies !reaches(
                    source,
                    all,
                    #[trigger] at.push(Step::Index(i)),
                ) by {
                    assert(Step::Index(i) != step);
                }
                assert forall|i: int|
                    #![trigger after[i]]
                    0 <= i < after.len() implies if reaches(source, all, at.push(Step::Index(i))) {
                    picked_at(after[i], source, all, at.push(Step::Index(i)))
                } else {
                    after[i] is Null
                } by {
                    if i != k {
                        let other = at.push(Step::Index(i));
                        assert(Step::Index(i) != step);
                        if i < items.len() {
                            assert(after[i] == items[i]);
                            if reaches(source, paths, other) {
                                if leads_to(other, path) {
                                    lemma_leads_up(at, Step::Index(i), path);
                                }
                                lemma_elsewhere(items[i], source, paths, path, other);
                            }
                        }
                    }
                }
                if after.len() > k + 1 {
                    assert(after.len() == items.len());
                    assert(reaches(source, all, at.push(Step::Index(items.len() - 1))));
                }
                assert(placed(t, rest, v) == Json::Arr(after));
            },
            _ => {},
        }
    }
}

/// What was picked so far is what the paths seen so far pick.
proof fn lemma_picked_upto_picks(source: Json, paths: Seq<Seq<Step>>, n: int)
    requires
        0 <= n <= paths.len(),
        forall|k: int| 0 <= k < n ==> (#[trigger] paths[k]).len() > 0,
    ensures
        reaches(source, paths.take(n), Seq::empty()) ==> picked_at(
            picked_upto(source, paths, n),
            source,
            paths.take(n),
            Seq::empty(),
        ) && !(picked_upto(source, paths, n) is Null),
        !reaches(source, paths.take(n), Seq::empty()) ==> picked_upto(source, paths, n) is Null,
    decreases n,
{
    let root = Seq::<Step>::empty();
    if n > 0 {
        let head = paths.take(n - 1);
        let path = paths[n - 1];
        let target = picked_upto(source, paths, n - 1);
        lemma_picked_upto_picks(source, paths, n - 1);
        assert(paths.take(n) =~= head.push(path));
        assert(path.take(0) =~= root);
        assert(path.skip(0) =~= path);
        lemma_reaches_push(source, head, path, root);
        lemma_contains_push(head, path, root);
        if head.contains(root) {
            let k = choose|k: int| 0 <= k < head.len() && head[k] == root;
            assert(paths[k] == root);
        }
        assert(at_path(source, root) == Some(source));
        match at_path(source, path) {
            Some(v) => {
                assert(child(source, path[0]) is Some);
                let start = if target is Null {
                    container(path[0])
                } else {
                    target
                };
                if target is Null {
                    lemma_container_picks(source, head, root, path[0]);
                }
                lemma_placed_picks(start, source, head, path, root);
            },
            None => {
                if reaches(source, head, root) {
                    lemma_elsewhere(target, source, head, path, root);
                }
            },
        }
    }
}

/// What is picked is exactly what the paths that resolve lead to: all that
/// is at their ends, and on the way there the entries and slots that some
/// path goes through, with nulls in the slots in between. Where no path
/// resolves it is the empty object.
pub proof fn law_pick_holds_what_paths_reach(source: Json, paths: Seq<Seq<Step>>)
    ensures
        picks(picked(source, paths), source, paths),
{
    let root = Seq::<Step>::empty();
    assert(at_path(source, root) == Some(source));
    if exists|k: int| 0 <= k < paths.len() && (#[trigger] paths[k]).len() == 0 {
        let k = choose|k: int| 0 <= k < paths.len() && (#[trigger] paths[k]).len() == 0;
        assert(paths[k] =~= root);
        assert(paths.contains(root));
        assert(root.take(0) =~= root);
        assert(leads_to(root, paths[k]));
    } else {
        lemma_picked_upto_picks(source, paths, paths.len() as int);
        assert(paths.take(paths.len() as int) =~= paths);
    }
}

/// A path in what was picked goes along a given path that resolves, or
/// beyond its end, or leads to a null that fills a slot in between.
pub proof fn law_picked_path_was_given(source: Json, paths: Seq<Seq<Step>>, path: Seq<Step>)
    requires
        path.len() > 0,
        at_path(picked(source, paths), path) is Some,
        !(at_path(picked(source, paths), path)->0 is Null),
    ensures
        exists|k: int|
            0 <= k < paths.len() && at_path(source, #[trigger] paths[k]) is Some && (leads_to(
                path,
                paths[k],
            ) || leads_to(paths[k], path)),
{
    let t = picked(source, paths);
    let root = Seq::<Step>::empty();
    law_pick_holds_what_paths_reach(source, paths);
    if reaches(source, paths, root) {
        assert(root + path =~= path);
        lemma_picked_path(t, source, paths, root, path);
    } else {
        let none = Seq::<(Seq<char>, Json)>::empty();
        if let Step::Field(name) = path[0] {
            lemma_position(none, name);
        }
        assert(child(t, path[0]) is None);
    }
}

proof fn lemma_picked_path(
    t: Json,
    source: Json,
    paths: Seq<Seq<Step>>,
    at: Seq<Step>,
    rest: Seq<Step>,
)
    requires
        picked_at(t, source, paths, at),
        reaches(source, paths, at),
        at_path(t, rest) is Some,
        !(at_path(t, rest)->0 is Null),
    ensures
        exists|k: int|
            0 <= k < paths.len() && at_path(source, #[trigger] paths[k]) is Some && (leads_to(
                at + rest,
                paths[k],
            ) || leads_to(paths[k], at + rest)),
    decreases rest.len(),
{
    let path = at + rest;
    if paths.contains(at) {
        let k = choose|k: int| 0 <= k < paths.len() && paths[k] == at;
        assert(path.take(at.len() as int) =~= at);
        assert(at_path(source, paths[k]) is Some && leads_to(paths[k], path));
    } else if rest.len() == 0 {
        assert(path =~= at);
        let k = choose|k: int|
            0 <= k < paths.len() && leads_to(at, #[trigger] paths[k]) && at_path(source, paths[k])
                is Some;
        assert(at_path(source, paths[k]) is Some && leads_to(path, paths[k]));
    } else {
        let step = rest[0];
        let next = at.push(step);
        let below = rest.drop_first();
        assert(next + below =~= path);
        match (step, t) {
            (Step::Field(name), Json::Obj(entries)) => {
                lemma_position(entries, name);
                let p = position(entries, name);
                assert(has_key(entries, name));
                assert(entries[p].0 == name);
                lemma_picked_path(entries[p].1, source, paths, next, below);
            },
            (Step::Index(i), Json::Arr(items)) => {
                if items[i] is Null && below.len() > 0 {
                    assert(child(items[i], below[0]) is None);
                }
                assert(reaches(source, paths, next));
                lemma_picked_path(items[i], source, paths, next, below);
            },
            _ => {},
        }
    }
}

/// Whether the same paths that resolve in `source` are among `a` and `b`.
pub open spec fn same_paths(source: Json, a: Seq<Seq<Step>>, b: Seq<Seq<Step>>) -> bool {
    forall|path: Seq<Step>| #[trigger]
        at_path(source, path) is Some ==> (a.contains(path) <==> b.contains(path))
}

proof fn lemma_same_reach(source: Json, a: Seq<Seq<Step>>, b: Seq<Seq<Step>>, at: Seq<Step>)
    requires
        same_paths(source, a, b),
        reaches(source, a, at),
    ensures
        reaches(source, b, at),
{
    let k = choose|k: int|
        0 <= k < a.len() && leads_to(at, #[trigger] a[k]) && at_path(source, a[k]) is Some;
    assert(a.contains(a[k]));
    assert(b.contains(a[k]));
    let j = choose|j: int| 0 <= j < b.len() && b[j] == a[k];
    assert(leads_to(at, b[j]) && at_path(source, b[j]) is Some);
}

/// A value without repeated keys is equal to itself.
proof fn lemma_same_json_reflexive(v: Json)
    requires
        distinct_keys(v),
    ensures
        same_json(v, v),
    decreases v,
{
    match v {
        Json::Arr(items) => {
            assert forall|i: int| #![trigger items[i]] 0 <= i < items.len() implies same_json(
                items[i],
                items[i],
            ) by {
                lemma_same_json_reflexive(items[i]);
            }
        },
        Json::Obj(entries) => {
            assert forall|i: int| #![trigger entries[i]] 0 <= i < entries.len() implies has_key(
                entries,
                entries[i].0,
            ) && same_json(entries[i].1, lookup(entries, entries[i].0)->0) by {
                lemma_own_key(entries, i);
                lemma_same_json_reflexive(entries[i].1);
            }
        },
        _ => {},
    }
}

/// Objects with distinct names and the same keys have as many entries.
proof fn lemma_same_number(x: Seq<(Seq<char>, Json)>, y: Seq<(Seq<char>, Json)>)
    requires
        distinct_names(x),
        distinct_names(y),
        forall|key: Seq<char>| #[trigger] has_key(x, key) <==> has_key(y, key),
    ensures
        x.len() == y.len(),
{
    lemma_names_distinct(x);
    lemma_names_distinct(y);
    names(x).unique_seq_to_set();
    names(y).unique_seq_to_set();
    assert forall|key: Seq<char>| names(x).to_set().contains(key) == names(y).to_set().contains(
        key,
    ) by {
        lemma_key_is_name(x, key);
        lemma_key_is_name(y, key);
        assert(has_key(x, key) <==> has_key(y, key));
    }
    assert(names(x).to_set() =~= names(y).to_set());
}

/// What is picked at `at` is determined by the paths that resolve.
proof fn lemma_picked_alike(
    t: Json,
    u: Json,
    source: Json,
    a: Seq<Seq<Step>>,
    b: Seq<Seq<Step>>,
    at: Seq<Step>,
)
    requires
        distinct_keys(source),
        same_paths(source, a, b),
        same_paths(source, b, a),
        picked_at(t, source, a, at),
        picked_at(u, source, b, at),
        at_path(source, at) is Some,
    ensures
        same_json(t, u),
    decreases t,
{
    assert forall|step: Step| reaches(source, a, #[trigger] at.push(step)) <==> reaches(
        source,
        b,
        at.push(step),
    ) by {
        if reaches(source, a, at.push(step)) {
            lemma_same_reach(source, a, b, at.push(step));
        }
        if reaches(source, b, at.push(step)) {
            lemma_same_reach(source, b, a, at.push(step));
        }
    }
    if a.contains(at) {
        lemma_at_path_distinct(source, at);
        lemma_same_json_reflexive(t);
    } else {
        match (t, u) {
            (Json::Obj(x), Json::Obj(y)) => {
                assert forall|key: Seq<char>| #[trigger] has_key(x, key) <==> has_key(y, key) by {
                    assert(has_key(x, key) <==> reaches(source, a, at.push(Step::Field(key))));
                }
                lemma_same_number(x, y);
                assert forall|i: int| #![trigger x[i]] 0 <= i < x.len() implies has_key(y, x[i].0)
                    && same_json(x[i].1, lookup(y, x[i].0)->0) by {
                    let key = x[i].0;
                    let next = at.push(Step::Field(key));
                    lemma_own_key(x, i);
                    assert(has_key(x, key));
                    lemma_position(y, key);
                    let p = position(y, key);
                    assert(y[p].0 == key);
                    lemma_reaches_up(source, a, at, Step::Field(key));
                    lemma_at_path_push(source, at, Step::Field(key));
                    lemma_picked_alike(x[i].1, y[p].1, source, a, b, next);
                }
            },
            (Json::Arr(x), Json::Arr(y)) => {
                if x.len() < y.len() {
                    assert(!reaches(source, a, at.push(Step::Index(y.len() - 1))));
                } else if y.len() < x.len() {
                    assert(!reaches(source, b, at.push(Step::Index(x.len() - 1))));
                }
                assert forall|i: int| #![trigger x[i]] 0 <= i < x.len() implies same_json(
                    x[i],
                    y[i],
                ) by {
                    let next = at.push(Step::Index(i));
                    assert(reaches(source, a, next) <==> reaches(source, b, next));
                    if reaches(source, a, next) {
                        assert(picked_at(x[i], source, a, next));
                        assert(picked_at(y[i], source, b, next));
                        lemma_reaches_up(source, a, at, Step::Index(i));
                        lemma_at_path_push(source, at, Step::Index(i));
                        lemma_picked_alike(x[i], y[i], source, a, b, next);
                    } else {
                        assert(x[i] is Null && y[i] is Null);
                    }
                }
            },
            _ => {},
        }
    }
}

/// What is picked depends on which of the paths resolve, and not on their
/// order, on how often one is given, or on those that are missing from the
/// source.
pub proof fn law_pick_ignores_path_order(
    source: Json,
    a: Seq<Seq<Step>>,
    b: Seq<Seq<Step>>,
)
    requires
        distinct_keys(source),
        same_paths(source, a, b),
    ensures
        same_json(picked(source, a), picked(source, b)),
{
    let root = Seq::<Step>::empty();
    assert(at_path(source, root) == Some(source));
    law_pick_holds_what_paths_reach(source, a);
    law_pick_holds_what_paths_reach(source, b);
    if reaches(source, a, root) {
        lemma_same_reach(source, a, b, root);
        lemma_picked_alike(picked(source, a), picked(source, b), source, a, b, root);
    } else if reaches(source, b, root) {
        lemma_same_reach(source, b, a, root);
    }
}

} // verus!
