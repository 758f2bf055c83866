//! Walking, pruning and picking JSON values by resolved jq paths.

use vstd::prelude::*;
use crate::json::{
    entry_models, find_key, group_value_models, lemma_position, lookup, models, position, put,
    without, Json, Value,
};
use crate::pick_laws::{law_pick_holds_what_paths_reach, picks};

verus! {

/// A single step in a resolved path.
#[derive(Debug, Clone, PartialEq, Eq)]
pub enum PathStep {
    /// An object key.
    Field(String),
    /// An array index.
    Index(usize),
}

/// Mathematical model of a path step.
pub enum Step {
    Field(Seq<char>),
    Index(int),
}

impl View for PathStep {
    type V = Step;

    open spec fn view(&self) -> Step {
        match *self {
            PathStep::Field(name) => Step::Field(name@),
            PathStep::Index(i) => Step::Index(i as int),
        }
    }
}

/// The models of a sequence of path steps.
pub open spec fn steps(path: Seq<PathStep>) -> Seq<Step> {
    Seq::new(path.len(), |i: int| path[i]@)
}

/// The sub-value one step below `v`, where the step fits `v`'s shape.
pub open spec fn child(v: Json, step: Step) -> Option<Json> {
    match (step, v) {
        (Step::Field(name), Json::Obj(entries)) => lookup(entries, name),
        (Step::Index(i), Json::Arr(items)) => if 0 <= i < items.len() {
            Some(items[i])
        } else {
            None
        },
        _ => None,
    }
}

/// `v` with the sub-value one step below it replaced by `c`.
pub open spec fn with_child(v: Json, step: Step, c: Json) -> Json {
    match (step, v) {
        (Step::Field(name), Json::Obj(entries)) => Json::Obj(put(entries, name, c)),
        (Step::Index(i), Json::Arr(items)) => Json::Arr(items.update(i, c)),
        _ => v,
    }
}

/// The sub-value of `v` at `path`.
pub open spec fn at_path(v: Json, path: Seq<Step>) -> Option<Json>
    decreases path.len(),
{
    if path.len() == 0 {
        Some(v)
    } else {
        match child(v, path[0]) {
            Some(c) => at_path(c, path.drop_first()),
            None => None,
        }
    }
}

/// `v` without the sub-value one step below it.
pub open spec fn without_child(v: Json, step: Step) -> Json {
    match (step, v) {
        (Step::Field(name), Json::Obj(entries)) => Json::Obj(without(entries, name)),
        (Step::Index(i), Json::Arr(items)) => if 0 <= i < items.len() {
            Json::Arr(items.remove(i))
        } else {
            v
        },
        _ => v,
    }
}

/// `v` without the sub-value at `path`.
pub open spec fn without_path(v: Json, path: Seq<Step>) -> Json
    decreases path.len(),
{
    if path.len() == 0 {
        Json::Null
    } else if path.len() == 1 {
        without_child(v, path[0])
    } else {
        match child(v, path[0]) {
            Some(c) => with_child(v, path[0], without_path(c, path.drop_first())),
            None => v,
        }
    }
}

/// Walks `value` along `path` and returns the sub-value there, or `None`
/// where a step misses: a missing field, an index out of range, or a step
/// that does not fit the value's shape.
pub fn walk<'a>(value: &'a Value, path: &[PathStep]) -> (r: Option<&'a Value>)
    ensures
        r is Some == at_path(value@, steps(path@)) is Some,
        r matches Some(found) ==> at_path(value@, steps(path@)) == Some(found@),
{
    broadcast use group_value_models;

    let mut cur = value;
    let mut i: usize = 0;
    assert(steps(path@).skip(0) =~= steps(path@));
    while i < path.len()
        invariant
            i <= path@.len(),
            at_path(value@, steps(path@)) == at_path(cur@, steps(path@).skip(i as int)),
        decreases path@.len() - i,
    {
        broadcast use group_value_models;

        let ghost rest = steps(path@).skip(i as int);
        assert(rest[0] == path@[i as int]@);
        assert(rest.drop_first() =~= steps(path@).skip(i + 1));
        match (&path[i], cur) {
            (PathStep::Field(name), Value::Object(entries)) => {
                match find_key(entries, name.as_str()) {
                    Some(at) => {
                        cur = &entries[at].1;
                    },
                    None => {
                        return None;
                    },
                }
            },
            (PathStep::Index(idx), Value::Array(items)) => {
                if *idx < items.len() {
                    cur = &items[*idx];
                } else {
                    return None;
                }
            },
            _ => {
                return None;
            },
        }
        i += 1;
    }
    Some(cur)
}

/// Removes the sub-value at `path` from `value`.
///
/// The empty path excludes the whole value, which becomes null. A path
/// that does not fully match leaves the value as it is.
pub fn remove(value: &mut Value, path: &[PathStep])
    ensures
        final(value)@ == without_path(old(value)@, steps(path@)),
{
    if path.len() == 0 {
        *value = Value::Null;
    } else {
        assert(steps(path@).skip(0) =~= steps(path@));
        remove_from(value, path, 0);
    }
}

/// Removes from `value` the sub-value at the steps of `path` from `at` on.
fn remove_from(value: &mut Value, path: &[PathStep], at: usize)
    requires
        at < path@.len(),
    ensures
        final(value)@ == without_path(old(value)@, steps(path@).skip(at as int)),
    decreases path@.len() - at,
{
    broadcast use group_value_models;

    let ghost rest = steps(path@).skip(at as int);
    proof {
        assert(rest[0] == path@[at as int]@);
        assert(rest.drop_first() =~= steps(path@).skip(at + 1));
    }
    match (&path[at], value) {
        (PathStep::Field(name), Value::Object(entries)) => {
            let ghost before = entries@;
            match find_key(entries, name.as_str()) {
                Some(k) => {
                    if at + 1 == path.len() {
                        entries.remove(k);
                        assert(entry_models(entries@) =~= without(entry_models(before), name@));
                    } else {
                        remove_from(&mut entries[k].1, path, at + 1);
                        proof {
                            lemma_position(entry_models(before), name@);
                        }
                        assert(entry_models(entries@) =~= put(
                            entry_models(before),
                            name@,
                            entries@[k as int].1@,
                        ));
                    }
                },
                None => {},
            }
        },
        (PathStep::Index(idx), Value::Array(items)) => {
            let ghost before = items@;
            if *idx < items.len() {
                if at + 1 == path.len() {
                    items.remove(*idx);
                    assert(models(items@) =~= models(before).remove(*idx as int));
                } else {
                    remove_from(&mut items[*idx], path, at + 1);
                    assert(models(items@) =~= models(before).update(
                        *idx as int,
                        items@[*idx as int]@,
                    ));
                }
            }
        },
        _ => {},
    }
}

/// The empty container that `step` addresses into.
pub open spec fn container(step: Step) -> Json {
    match step {
        Step::Field(_) => Json::Obj(Seq::empty()),
        Step::Index(_) => Json::Arr(Seq::empty()),
    }
}

/// `items` padded with nulls to at least `len` items.
pub open spec fn padded(items: Seq<Json>, len: int) -> Seq<Json> {
    if items.len() < len {
        items + Seq::new((len - items.len()) as nat, |i: int| Json::Null)
    } else {
        items
    }
}

/// `cur` with `v` written at the non-empty `path`. Missing fields, slots
/// past the end of an array and null slots of an array become the
/// container that the next step addresses into; a step that does not fit
/// leaves what is there.
pub open spec fn placed(cur: Json, path: Seq<Step>, v: Json) -> Json
    decreases path.len(),
{
    match (path[0], cur) {
        (Step::Field(name), Json::Obj(entries)) => {
            let below = if path.len() <= 1 {
                v
            } else {
                let start = match lookup(entries, name) {
                    Some(c) => c,
                    None => container(path[1]),
                };
                placed(start, path.drop_first(), v)
            };
            Json::Obj(put(entries, name, below))
        },
        (Step::Index(i), Json::Arr(items)) => {
            let slots = padded(items, i + 1);
            let below = if path.len() <= 1 {
                v
            } else {
                let start = if slots[i] is Null {
                    container(path[1])
                } else {
                    slots[i]
                };
                placed(start, path.drop_first(), v)
            };
            Json::Arr(slots.update(i, below))
        },
        _ => cur,
    }
}

/// `target` with `v` written at the non-empty `path`; a null target
/// starts as the container that the first step addresses into.
pub open spec fn with_path(target: Json, path: Seq<Step>, v: Json) -> Json {
    let start = if target is Null {
        container(path[0])
    } else {
        target
    };
    placed(start, path, v)
}

/// The target after the sub-values of `source` at the first `n` of
/// `paths` are written into it, in order.
pub open spec fn picked_upto(source: Json, paths: Seq<Seq<Step>>, n: int) -> Json
    decreases n,
{
    if n <= 0 {
        Json::Null
    } else {
        let target = picked_upto(source, paths, n - 1);
        match at_path(source, paths[n - 1]) {
            Some(v) => with_path(target, paths[n - 1], v),
            None => target,
        }
    }
}

/// What the given paths pick out of `source`.
pub open spec fn picked(source: Json, paths: Seq<Seq<Step>>) -> Json {
    if exists|k: int| 0 <= k < paths.len() && (#[trigger] paths[k]).len() == 0 {
        source
    } else {
        let target = picked_upto(source, paths, paths.len() as int);
        if target is Null {
            Json::Obj(Seq::empty())
        } else {
            target
        }
    }
}

/// The models of a sequence of paths.
pub open spec fn step_lists(paths: Seq<Vec<PathStep>>) -> Seq<Seq<Step>> {
    Seq::new(paths.len(), |i: int| steps(paths[i]@))
}

fn container_for(step: &PathStep) -> (r: Value)
    ensures
        r@ == container(step@),
{
    broadcast use group_value_models;

    match step {
        PathStep::Field(_) => {
            let entries: Vec<(String, Value)> = Vec::new();
            assert(entry_models(entries@) =~= Seq::empty());
            Value::Object(entries)
        },
        PathStep::Index(_) => {
            let items: Vec<Value> = Vec::new();
            assert(models(items@) =~= Seq::empty());
            Value::Array(items)
        },
    }
}

/// Pads `items` with nulls until `idx` is in range.
fn pad_to(items: &mut Vec<Value>, idx: usize)
    requires
        idx < usize::MAX,
    ensures
        models(final(items)@) == padded(models(old(items)@), idx + 1),
        idx < final(items)@.len(),
{
    broadcast use group_value_models;

    let ghost before = models(items@);
    while items.len() <= idx
        invariant
            idx < usize::MAX,
            items@.len() <= idx + 1 || items@.len() == before.len(),
            before.len() <= items@.len(),
            models(items@) == padded(before, items@.len() as int),
        decreases idx + 1 - items@.len(),
    {
        broadcast use group_value_models;

        let ghost n = items@.len() as int;
        items.push(Value::Null);
        assert(padded(before, n).push(Json::Null) =~= padded(before, n + 1));
    }
    assert(models(items@) =~= padded(before, idx + 1));
}

/// Writes `value` into `target` at `path`, creating intermediate objects
/// and arrays as needed. The container chosen at each level depends on
/// whether the next step is a field or an index.
pub fn set_path(target: &mut Value, path: &[PathStep], value: Value)
    requires
        path@.len() > 0,
        forall|k: int|
            0 <= k < path@.len() ==> ((#[trigger] path@[k]) matches PathStep::Index(i) ==> i
                < usize::MAX),
    ensures
        final(target)@ == with_path(old(target)@, steps(path@), value@),
{
    if let Value::Null = target {
        *target = container_for(&path[0]);
    }
    assert(steps(path@).skip(0) =~= steps(path@));
    place(target, path, 0, value);
}

/// Writes `value` into `cur` at the steps of `path` from `at` on.
fn place(cur: &mut Value, path: &[PathStep], at: usize, value: Value)
    requires
        at < path@.len(),
        forall|k: int|
            0 <= k < path@.len() ==> ((#[trigger] path@[k]) matches PathStep::Index(i) ==> i
                < usize::MAX),
    ensures
        final(cur)@ == placed(old(cur)@, steps(path@).skip(at as int), value@),
    decreases path@.len() - at,
{
    broadcast use group_value_models;

    let ghost rest = steps(path@).skip(at as int);
    proof {
        assert(rest[0] == path@[at as int]@);
        assert(rest.drop_first() =~= steps(path@).skip(at + 1));
        if at + 1 < path@.len() {
            assert(rest[1] == path@[at + 1]@);
        }
    }
    match (&path[at], cur) {
        (PathStep::Field(name), Value::Object(entries)) => {
            let ghost before = entry_models(entries@);
            proof {
                lemma_position(before, name@);
            }
            match find_key(entries, name.as_str()) {
                Some(k) => {
                    if at + 1 == path.len() {
                        entries[k].1 = value;
                    } else {
                        place(&mut entries[k].1, path, at + 1, value);
                    }
                    assert(entry_models(entries@) =~= put(before, name@, entries@[k as int].1@));
                },
                None => {
                    if at + 1 == path.len() {
                        entries.push((name.clone(), value));
                    } else {
                        let mut below = container_for(&path[at + 1]);
                        place(&mut below, path, at + 1, value);
                        entries.push((name.clone(), below));
                    }
                },
            }
        },
        (PathStep::Index(idx), Value::Array(items)) => {
            pad_to(items, *idx);
            let ghost slots = models(items@);
            if at + 1 == path.len() {
                items[*idx] = value;
            } else {
                if let Value::Null = items[*idx] {
                    items[*idx] = container_for(&path[at + 1]);
                }
                place(&mut items[*idx], path, at + 1, value);
            }
            assert(models(items@) =~= slots.update(*idx as int, items@[*idx as int]@));
        },
        _ => {},
    }
}

/// A path that resolves in an executable value only uses indexes that an
/// array can have.
proof fn lemma_indexes_fit(v: Value, path: Seq<Step>, k: int)
    requires
        at_path(v@, path) is Some,
        0 <= k < path.len(),
    ensures
        path[k] matches Step::Index(i) ==> i < usize::MAX,
    decreases path.len(),
{
    broadcast use group_value_models;

    match v {
        Value::Object(entries) => {
            if let Step::Field(name) = path[0] {
                let at = position(entry_models(entries@), name);
                lemma_position(entry_models(entries@), name);
                if k > 0 {
                    lemma_indexes_fit(entries@[at].1, path.drop_first(), k - 1);
                }
            }
        },
        Value::Array(items) => {
            if let Step::Index(i) = path[0] {
                assert(items.len() <= usize::MAX);
                if k > 0 {
                    lemma_indexes_fit(items@[i], path.drop_first(), k - 1);
                }
            }
        },
        _ => {},
    }
}

/// Returns a new value that holds only the sub-values of `source` at the
/// given paths, with the nesting that each path implies.
///
/// An empty path picks the whole source, a path that does not exist in
/// `source` is skipped, and the result is an empty object where nothing
/// matches.
pub fn pick(source: &Value, paths: &[Vec<PathStep>]) -> (r: Value)
    ensures
        r@ == picked(source@, step_lists(paths@)),
        picks(r@, source@, step_lists(paths@)),
{
    broadcast use group_value_models;

    proof {
        law_pick_holds_what_paths_reach(source@, step_lists(paths@));
    }

    let ghost lists = step_lists(paths@);
    let mut target = Value::Null;
    let mut i: usize = 0;
    while i < paths.len()
        invariant
            lists == step_lists(paths@),
            picks(picked(source@, lists), source@, lists),
            i <= paths@.len(),
            forall|k: int| 0 <= k < i ==> (#[trigger] lists[k]).len() > 0,
            target@ == picked_upto(source@, lists, i as int),
        decreases paths@.len() - i,
    {
        let path = &paths[i];
        assert(lists[i as int] == steps(path@));
        if path.len() == 0 {
            return source.copy();
        }
        if let Some(found) = walk(source, path.as_slice()) {
            proof {
                assert forall|k: int| 0 <= k < path@.len() implies ((#[trigger] path@[k]) matches
                    PathStep::Index(i) ==> i < usize::MAX) by {
                    lemma_indexes_fit(*source, steps(path@), k);
                    assert(steps(path@)[k] == path@[k]@);
                }
            }
            set_path(&mut target, path.as_slice(), found.copy());
        }
        i += 1;
    }
    if let Value::Null = target {
        let entries: Vec<(String, Value)> = Vec::new();
        assert(entry_models(entries@) =~= Seq::empty());
        Value::Object(entries)
    } else {
        target
    }
}

} // verus!
