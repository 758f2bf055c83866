//! Payload transformations that decide what a derived key hashes.

use vstd::prelude::*;
use crate::jq_laws::law_remove_missing_is_identity;
use crate::jq_path::{
    at_path, pick, picked, remove, step_lists, steps, without_path, PathStep, Step,
};
use crate::json::{Json, Value};

verus! {

/// `v` after the sub-values at the first `n` of `paths` are removed, in
/// order.
pub open spec fn without_paths(v: Json, paths: Seq<Seq<Step>>, n: int) -> Json
    decreases n,
{
    if n <= 0 {
        v
    } else {
        without_path(without_paths(v, paths, n - 1), paths[n - 1])
    }
}

/// A copy of `payload` with each of `paths` removed. The path `.` removes
/// the whole payload, which becomes null; a path that does not exist on
/// the payload is skipped.
pub fn payload_except(payload: &Value, paths: &[Vec<PathStep>]) -> (r: Value)
    ensures
        r@ == without_paths(payload@, step_lists(paths@), paths@.len() as int),
{
    let mut value = payload.copy();
    let mut i: usize = 0;
    while i < paths.len()
        invariant
            i <= paths@.len(),
            value@ == without_paths(payload@, step_lists(paths@), i as int),
        decreases paths@.len() - i,
    {
        let path = &paths[i];
        assert(step_lists(paths@)[i as int] == steps(path@));
        remove(&mut value, path.as_slice());
        i += 1;
    }
    value
}

/// A new value with only the sub-values of `payload` at the given paths,
/// with the nesting that each path implies. The path `.` picks the whole
/// payload, a path that does not exist is skipped, and no paths give the
/// empty object.
pub fn payload_only(payload: &Value, paths: &[Vec<PathStep>]) -> (r: Value)
    ensures
        r@ == picked(payload@, step_lists(paths@)),
{
    pick(payload, paths)
}

/// The path `.` among the excluded ones leaves nothing of the payload.
pub proof fn law_excluding_the_root_leaves_null(v: Json, paths: Seq<Seq<Step>>, n: int, k: int)
    requires
        0 <= k < n,
        paths[k].len() == 0,
    ensures
        without_paths(v, paths, n) == Json::Null,
    decreases n,
{
    if k < n - 1 {
        law_excluding_the_root_leaves_null(v, paths, n - 1, k);
    }
}

/// Excluding paths that do not exist changes nothing.
pub proof fn law_excluding_missing_paths_is_identity(v: Json, paths: Seq<Seq<Step>>, n: int)
    requires
        forall|k: int| 0 <= k < n ==> at_path(v, #[trigger] paths[k]) is None,
    ensures
        without_paths(v, paths, n) == v,
    decreases n,
{
    if n > 0 {
        law_excluding_missing_paths_is_identity(v, paths, n - 1);
        law_remove_missing_is_identity(v, paths[n - 1]);
    }
}

} // verus!
