//! What walking, removing, picking and writing by paths do, said of the
//! calls themselves.

use vstd::prelude::*;
use vstd::string::*;
use crate::hashable::{payload_except, payload_only, without_paths};
use crate::jq_laws::{
    law_remove_keeps_keys_distinct, law_remove_missing_is_identity, law_removed_field_is_gone,
    law_writing_keeps_other_paths, law_written_value_reads_back, lemma_put_other, lemma_put_same,
    lemma_without_other, takes_path,
};
use crate::jq_parse::{
    is_name_start, law_path_text_parses_back, parse, path_text, PathParseError,
};
use crate::jq_path::{
    at_path, child, pick, remove, set_path, step_lists, steps, walk,
    without_path, PathStep, Step,
};
use crate::json::{distinct_keys, has_key, lookup, Json, Value};
use crate::pick_laws::{leads_to, lemma_at_path_split, picks};
use crate::text::byte_len;

verus! {

/// What is one step below a value: the field of an object, the item of an
/// array, nothing below anything else.
pub open spec fn below(v: Json, step: Step) -> Option<Json> {
    match step {
        Step::Field(name) => match v {
            Json::Obj(entries) => lookup(entries, name),
            _ => None,
        },
        Step::Index(i) => match v {
            Json::Arr(items) => if 0 <= i < items.len() {
                Some(items[i])
            } else {
                None
            },
            _ => None,
        },
    }
}

/// A path resolves step by step: the empty path to the value itself, any
/// other to where the rest of it leads from one step below.
pub proof fn law_path_resolves_step_by_step(v: Json, path: Seq<Step>, more: Seq<Step>)
    ensures
        path.len() == 0 ==> at_path(v, path) == Some(v),
        path.len() == 1 ==> at_path(v, path) == below(v, path[0]),
        at_path(v, path + more) == match at_path(v, path) {
            Some(c) => at_path(c, more),
            None => None,
        },
{
    if path.len() == 1 {
        if let Some(c) = child(v, path[0]) {
            assert(at_path(c, path.drop_first()) == Some(c));
        }
    }
    let whole = path + more;
    lemma_at_path_split(v, whole, path.len() as int);
    assert(whole.take(path.len() as int) =~= path);
    assert(whole.skip(path.len() as int) =~= more);
}

/// Walking along a path gives what the path resolves to.
pub proof fn law_walk_gives_what_the_path_resolves_to(
    v: &Value,
    path: &[PathStep],
    r: Option<&Value>,
)
    requires
        call_ensures(walk, (v, path), r),
    ensures
        r is Some == at_path(v@, steps(path@)) is Some,
        r matches Some(found) ==> at_path(v@, steps(path@)) == Some(found@),
        path@.len() == 0 ==> (r matches Some(found) && found@ == v@),
{
}

/// Removing a field takes that field out of its object, removing an item
/// takes it out of its array, and removing by the empty path leaves null.
pub proof fn law_removal_takes_one_thing_out(v: Json, path: Seq<Step>, other: Seq<char>)
    ensures
        path.len() == 0 ==> without_path(v, path) is Null,
        path.len() == 1 ==> (path[0] matches Step::Index(i) ==> (v matches Json::Arr(items) ==> 0
            <= i < items.len() ==> without_path(v, path) == Json::Arr(items.remove(i)))),
        path.len() == 1 ==> (path[0] matches Step::Field(name) ==> (v matches Json::Obj(entries)
            ==> (without_path(v, path) matches Json::Obj(after) && (other != name ==> lookup(
            after,
            other,
        ) == lookup(entries, other)) && (has_key(entries, name) ==> after.len() == entries.len()
            - 1)))),
{
    if path.len() == 1 {
        if let Step::Field(name) = path[0] {
            if let Json::Obj(entries) = v {
                if other != name {
                    lemma_without_other(entries, name, other);
                }
                crate::json::lemma_position(entries, name);
            }
        }
    }
}

/// Removing below a step is removing from what is one step below, and leaves
/// everything else of the value alone.
pub proof fn law_removal_goes_down(v: Json, step: Step, rest: Seq<Step>)
    requires
        rest.len() > 0,
    ensures
        below(v, step) matches Some(c) ==> below(without_path(v, seq![step] + rest), step) == Some(
            without_path(c, rest),
        ),
        below(v, step) is None ==> without_path(v, seq![step] + rest) == v,
{
    let path = seq![step] + rest;
    assert(path[0] == step);
    assert(path.drop_first() =~= rest);
    if let Some(c) = child(v, step) {
        if let Step::Field(name) = step {
            if let Json::Obj(entries) = v {
                lemma_put_same(entries, name, without_path(c, rest));
            }
        }
    }
}

/// Removing by a path gives the value without what the path resolves to.
pub proof fn law_remove_removes(v: &mut Value, path: &[PathStep])
    requires
        call_ensures(remove, (v, path), ()),
    ensures
        final(v)@ == without_path(old(v)@, steps(path@)),
        at_path(old(v)@, steps(path@)) is None ==> final(v)@ == old(v)@,
        distinct_keys(old(v)@) && path@.len() > 0 && steps(path@).last() is Field ==> at_path(
            final(v)@,
            steps(path@),
        ) is None,
{
    if at_path(old(v)@, steps(path@)) is None {
        law_remove_missing_is_identity(old(v)@, steps(path@));
    }
    if distinct_keys(old(v)@) && path@.len() > 0 && steps(path@).last() is Field {
        law_removed_field_is_gone(old(v)@, steps(path@));
    }
}

/// What is written at a path is there afterwards, and paths that part from it
/// lead where they led.
pub proof fn law_set_path_writes(
    target: &mut Value,
    path: &[PathStep],
    value: Value,
    other: Seq<Step>,
    at: int,
)
    requires
        call_ensures(set_path, (target, path, value), ()),
        path@.len() > 0,
        old(target)@ is Null || takes_path(old(target)@, steps(path@)),
    ensures
        at_path(final(target)@, steps(path@)) == Some(value@),
        0 <= at < path@.len() && at < other.len() && steps(path@).take(at) == other.take(at)
            && path@[at]@ != other[at] && at_path(old(target)@, other) is Some ==> at_path(
            final(target)@,
            other,
        ) == at_path(old(target)@, other),
{
    let p = steps(path@);
    assert forall|k: int| 0 <= k < p.len() implies ((#[trigger] p[k]) matches Step::Index(i) ==> i
        >= 0) by {
        assert(p[k] == path@[k]@);
    }
    law_written_value_reads_back(old(target)@, p, value@);
    if 0 <= at < path@.len() && at < other.len() && p.take(at) == other.take(at) && path@[at]@
        != other[at] && at_path(old(target)@, other) is Some {
        assert(p[at] == path@[at]@);
        law_writing_keeps_other_paths(old(target)@, p, value@, other, at);
    }
}

/// Picking, of a value or of a payload, gives exactly what the paths reach.
pub proof fn law_pick_picks(v: &Value, paths: &[Vec<PathStep>], r: Value)
    ensures
        call_ensures(pick, (v, paths), r) ==> picks(r@, v@, step_lists(paths@)),
        call_ensures(payload_only, (v, paths), r) ==> picks(r@, v@, step_lists(paths@)),
{
    crate::pick_laws::law_pick_holds_what_paths_reach(v@, step_lists(paths@));
}

/// Whether a path goes through objects only.
pub open spec fn through_fields(path: Seq<Step>) -> bool {
    forall|k: int| 0 <= k < path.len() ==> (#[trigger] path[k]) is Field
}

/// Removing a field brings nothing back.
proof fn lemma_stays_gone(v: Json, path: Seq<Step>, gone: Seq<Step>)
    requires
        distinct_keys(v),
        through_fields(path),
        through_fields(gone),
        at_path(v, gone) is None,
    ensures
        at_path(without_path(v, path), gone) is None,
    decreases path.len(),
{
    if path.len() == 0 {
        if gone.len() > 0 {
            assert(child(Json::Null, gone[0]) is None);
        }
    } else {
        let rest = path.drop_first();
        let grest = gone.drop_first();
        assert(gone.len() > 0);
        assert(path[0] is Field && gone[0] is Field);
        assert forall|k: int| 0 <= k < rest.len() implies (#[trigger] rest[k]) is Field by {
            assert(rest[k] == path[k + 1]);
        }
        assert forall|k: int| 0 <= k < grest.len() implies (#[trigger] grest[k]) is Field by {
            assert(grest[k] == gone[k + 1]);
        }
        let name = path[0]->Field_0;
        let gname = gone[0]->Field_0;
        if let Json::Obj(entries) = v {
            if path.len() == 1 {
                if gname != name {
                    lemma_without_other(entries, name, gname);
                } else {
                    law_removed_field_is_gone(v, seq![path[0]]);
                    let one = seq![path[0]];
                    assert(one =~= path);
                    if let Some(c) = child(without_path(v, path), path[0]) {
                        assert(at_path(c, path.drop_first()) == Some(c));
                    }
                }
            } else {
                match child(v, path[0]) {
                    Some(c) => {
                        crate::jq_laws::lemma_child_distinct(v, path[0]);
                        let below = without_path(c, rest);
                        if gname == name {
                            lemma_put_same(entries, name, below);
                            lemma_stays_gone(c, rest, grest);
                        } else {
                            lemma_put_other(entries, name, below, gname);
                        }
                    },
                    None => {},
                }
            }
        }
    }
}

/// Removing a field leaves paths alone that part from it.
proof fn lemma_stays_there(v: Json, path: Seq<Step>, other: Seq<Step>)
    requires
        through_fields(path),
        through_fields(other),
        path.len() > 0,
        !leads_to(path, other),
        !leads_to(other, path),
    ensures
        at_path(without_path(v, path), other) == at_path(v, other),
    decreases path.len(),
{
    let rest = path.drop_first();
    let orest = other.drop_first();
    assert(other.len() > 0) by {
        if other.len() == 0 {
            assert(path.take(0) =~= other);
        }
    }
    assert(path[0] is Field && other[0] is Field);
    assert forall|k: int| 0 <= k < rest.len() implies (#[trigger] rest[k]) is Field by {
        assert(rest[k] == path[k + 1]);
    }
    assert forall|k: int| 0 <= k < orest.len() implies (#[trigger] orest[k]) is Field by {
        assert(orest[k] == other[k + 1]);
    }
    let name = path[0]->Field_0;
    let oname = other[0]->Field_0;
    if let Json::Obj(entries) = v {
        if oname == name {
            assert(path.len() > 1) by {
                if path.len() == 1 {
                    assert(other.take(1) =~= path);
                }
            }
            assert(!leads_to(rest, orest)) by {
                if leads_to(rest, orest) {
                    assert(other.take(path.len() as int) =~= seq![other[0]] + orest.take(
                        rest.len() as int,
                    ));
                    assert(path =~= seq![path[0]] + rest);
                }
            }
            assert(!leads_to(orest, rest)) by {
                if leads_to(orest, rest) {
                    assert(path.take(other.len() as int) =~= seq![path[0]] + rest.take(
                        orest.len() as int,
                    ));
                    assert(other =~= seq![other[0]] + orest);
                }
            }
            if let Some(c) = child(v, path[0]) {
                lemma_put_same(entries, name, without_path(c, rest));
                lemma_stays_there(c, rest, orest);
            }
        } else {
            if path.len() == 1 {
                lemma_without_other(entries, name, oname);
            } else if let Some(c) = child(v, path[0]) {
                lemma_put_other(entries, name, without_path(c, rest), oname);
            }
        }
    }
}

proof fn lemma_excluded(v: Json, paths: Seq<Seq<Step>>, n: int, k: int, other: Seq<Step>)
    requires
        distinct_keys(v),
        0 <= n <= paths.len(),
        forall|j: int| 0 <= j < paths.len() ==> through_fields(#[trigger] paths[j]),
        through_fields(other),
    ensures
        distinct_keys(without_paths(v, paths, n)),
        0 <= k < n && paths[k].len() > 0 ==> at_path(without_paths(v, paths, n), paths[k]) is None,
        (forall|j: int|
            0 <= j < n ==> (#[trigger] paths[j]).len() > 0 && !leads_to(paths[j], other)
                && !leads_to(other, paths[j])) ==> at_path(without_paths(v, paths, n), other)
            == at_path(v, other),
    decreases n,
{
    if n > 0 {
        lemma_excluded(v, paths, n - 1, k, other);
        let before = without_paths(v, paths, n - 1);
        let path = paths[n - 1];
        law_remove_keeps_keys_distinct(before, path);
        if 0 <= k < n && paths[k].len() > 0 {
            if k == n - 1 {
                assert(path[path.len() - 1] is Field);
                law_removed_field_is_gone(before, path);
            } else {
                lemma_stays_gone(before, path, paths[k]);
            }
        }
        if forall|j: int|
            0 <= j < n ==> (#[trigger] paths[j]).len() > 0 && !leads_to(paths[j], other)
                && !leads_to(other, paths[j]) {
            assert(paths[n - 1].len() > 0);
            lemma_stays_there(before, path, other);
        }
    }
}

/// Every field that is excluded from a payload is gone from what is left, and
/// every field that parts from all the excluded ones is as it was.
pub proof fn law_excluded_fields_are_gone(
    v: &Value,
    paths: &[Vec<PathStep>],
    r: Value,
    k: int,
    other: Seq<Step>,
)
    requires
        distinct_keys(v@),
        forall|j: int| 0 <= j < paths@.len() ==> through_fields(#[trigger] step_lists(paths@)[j]),
        through_fields(other),
        call_ensures(payload_except, (v, paths), r),
    ensures
        0 <= k < paths@.len() && paths@[k]@.len() > 0 ==> at_path(r@, steps(paths@[k]@)) is None,
        (forall|j: int|
            0 <= j < paths@.len() ==> (#[trigger] step_lists(paths@)[j]).len() > 0 && !leads_to(
                step_lists(paths@)[j],
                other,
            ) && !leads_to(other, step_lists(paths@)[j])) ==> at_path(r@, other) == at_path(
            v@,
            other,
        ),
        paths@.len() == 0 ==> r@ == v@,
{
    let lists = step_lists(paths@);
    assert(lists.len() == paths@.len());
    lemma_excluded(v@, lists, lists.len() as int, k, other);
    if 0 <= k < paths@.len() {
        assert(lists[k] == steps(paths@[k]@));
    }
}

/// A path that is written out, with dots or with brackets, parses to the
/// steps that it was written from.
pub proof fn law_written_path_parses(
    input: &str,
    path: Seq<Step>,
    plain: Seq<bool>,
    r: Result<Vec<PathStep>, PathParseError>,
)
    requires
        call_ensures(parse, (input,), r),
        path.len() == plain.len(),
        forall|k: int|
            0 <= k < path.len() ==> ((#[trigger] path[k]) matches Step::Index(n) ==> 0 <= n
                <= usize::MAX),
        input@ == path_text(path, plain),
    ensures
        r matches Ok(found) && steps(found@) == path,
{
    law_path_text_parses_back(path, plain);
}

/// A text that is empty, or does not start with a dot, or goes on behind its
/// dot with what starts no step, is no path; the error says where, and never
/// points behind the text.
pub proof fn law_malformed_path_is_refused(
    input: &str,
    r: Result<Vec<PathStep>, PathParseError>,
)
    requires
        call_ensures(parse, (input,), r),
    ensures
        input@.len() == 0 || input@[0] != '.' ==> (r matches Err(e) && e.position == 0),
        input@.len() > 1 && input@[0] == '.' && input@[1] != '.' && input@[1] != '['
            && !is_name_start(input@[1]) ==> r is Err,
        r matches Err(e) ==> e.position <= byte_len(input@),
        input@.len() == 1 && input@[0] == '.' ==> (r matches Ok(found) && found@.len() == 0),
{
    assert(input@.take(0) =~= Seq::empty());
    if let Ok(found) = r {
        assert(steps(found@).len() == found@.len());
    }
}

} // verus!
