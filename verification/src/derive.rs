//! What a job type's attributes amount to: its defaults, and how its
//! payloads are keyed.

use vstd::prelude::*;
use vstd::string::*;
use crate::attrs::{same_error, Selected, UniqueAttr, UniqueModel, UniqueSelection, ZizqAttrs};
use crate::hashable::{payload_except, payload_only, without_paths};
use crate::job::JobKind;
use crate::jq_laws::{law_pick_keeps_keys_distinct, law_remove_forgets_what_was_there};
use crate::jq_parse::{parse, parsed, Parsed};
use crate::jq_path::{at_path, picked, step_lists, steps, with_path, PathStep, Step};
use crate::json::{distinct_keys, same_json, Json, Value};
use crate::order_laws::{law_exclusion_ignores_key_order, law_pick_ignores_key_order};
use crate::pick_laws::{law_pick_ignores_path_order, same_paths};
use crate::text::{byte_len, concat3, debug_form, debug_text, decimal, texts};
use crate::unique_key::{hash_text, law_hash_ignores_key_order, UniqueKey, UniqueScope};

verus! {

/// Which part of a payload a key hashes, with its paths resolved.
#[derive(Debug, Clone, PartialEq, Eq)]
pub enum HashedPart {
    /// All of it.
    Whole,
    /// Only the sub-values at these paths.
    Only(Vec<Vec<PathStep>>),
    /// Everything but the sub-values at these paths.
    Except(Vec<Vec<PathStep>>),
}

/// Model of a hashed part.
pub enum Part {
    Whole,
    Only(Seq<Seq<Step>>),
    Except(Seq<Seq<Step>>),
}

impl View for HashedPart {
    type V = Part;

    open spec fn view(&self) -> Part {
        match *self {
            HashedPart::Whole => Part::Whole,
            HashedPart::Only(paths) => Part::Only(step_lists(paths@)),
            HashedPart::Except(paths) => Part::Except(step_lists(paths@)),
        }
    }
}

impl Part {
    /// What of `payload` is hashed.
    pub open spec fn of(self, payload: Json) -> Json {
        match self {
            Part::Whole => payload,
            Part::Only(paths) => picked(payload, paths),
            Part::Except(paths) => without_paths(payload, paths, paths.len() as int),
        }
    }
}

/// How the payloads of a job type are keyed.
#[derive(Debug, Clone, PartialEq, Eq)]
pub struct UniquePlan {
    pub part: HashedPart,
    /// Whether the name of the job type goes in front of the hash.
    pub prefix: bool,
    pub scope: Option<UniqueScope>,
}

/// The key of a payload.
pub open spec fn planned_key(part: Part, prefix: bool, name: Seq<char>, payload: Json) -> Seq<
    char,
> {
    if prefix {
        name + ":"@ + hash_text(part.of(payload))
    } else {
        hash_text(part.of(payload))
    }
}

impl UniquePlan {
    /// The uniqueness key of a payload of the job type `name`.
    pub fn unique_key(&self, name: &str, payload: &Value) -> (r: UniqueKey)
        ensures
            r.key@ == planned_key(self.part@, self.prefix, name@, payload@),
            r.scope == self.scope,
    {
        let hashed = match &self.part {
            HashedPart::Whole => payload.copy(),
            HashedPart::Only(paths) => payload_only(payload, paths.as_slice()),
            HashedPart::Except(paths) => payload_except(payload, paths.as_slice()),
        };
        let key = if self.prefix {
            UniqueKey::tagged_hash_of(name, &hashed)
        } else {
            UniqueKey::hash_of(&hashed)
        };
        match self.scope {
            Some(scope) => key.scope(scope),
            None => key,
        }
    }
}

/// What is wrong with the path `s`.
pub open spec fn path_fault(s: Seq<char>, message: Seq<char>, at: int) -> Seq<char> {
    "invalid jq path "@ + debug_form(s) + ": "@ + (message + " (at position "@ + decimal(
        byte_len(s.take(at)),
    ) + ")"@)
}

/// The steps of the first `n` of some paths, or what is wrong with the
/// first path that is wrong.
pub open spec fn paths_steps(paths: Seq<Seq<char>>, n: int) -> Result<Seq<Seq<Step>>, Seq<char>>
    decreases n,
{
    if n <= 0 {
        Ok(Seq::empty())
    } else {
        match paths_steps(paths, n - 1) {
            Ok(done) => match parsed(paths[n - 1]) {
                Parsed::Steps(found) => Ok(done.push(found)),
                Parsed::Fault(message, at) => Err(path_fault(paths[n - 1], message, at)),
            },
            Err(m) => Err(m),
        }
    }
}

proof fn lemma_paths_stay_wrong(paths: Seq<Seq<char>>, n: int, m: Seq<char>)
    requires
        0 <= n <= paths.len(),
        paths_steps(paths, n) == Err::<Seq<Seq<Step>>, Seq<char>>(m),
    ensures
        paths_steps(paths, paths.len() as int) == Err::<Seq<Seq<Step>>, Seq<char>>(m),
    decreases paths.len() - n,
{
    if n < paths.len() {
        lemma_paths_stay_wrong(paths, n + 1, m);
    }
}

/// Resolves some paths.
fn parse_paths(paths: &Vec<String>) -> (r: Result<Vec<Vec<PathStep>>, String>)
    ensures
        match paths_steps(texts(paths@), paths@.len() as int) {
            Ok(lists) => r matches Ok(found) && step_lists(found@) == lists,
            Err(m) => same_error(r, m),
        },
{
    let ghost all = texts(paths@);
    let mut out: Vec<Vec<PathStep>> = Vec::new();
    let mut i: usize = 0;
    assert(step_lists(out@) =~= Seq::empty());
    while i < paths.len()
        invariant
            all == texts(paths@),
            i <= paths@.len(),
            paths_steps(all, i as int) == Ok::<Seq<Seq<Step>>, Seq<char>>(step_lists(out@)),
        decreases paths@.len() - i,
    {
        let path = paths[i].as_str();
        assert(all[i as int] == path@);
        match parse(path) {
            Ok(found) => {
                let ghost before = out@;
                out.push(found);
                assert(step_lists(out@) =~= step_lists(before).push(steps(found@)));
            },
            Err(e) => {
                let mut message = concat3("invalid jq path ", debug_text(path).as_str(), ": ");
                message.append(e.to_text().as_str());
                proof {
                    assert(paths_steps(all, i + 1) == Err::<Seq<Seq<Step>>, Seq<char>>(message@));
                    lemma_paths_stay_wrong(all, i + 1, message@);
                }
                return Err(message);
            },
        }
        i += 1;
    }
    Ok(out)
}

/// The part of a payload that a uniqueness attribute selects, or what is
/// wrong with its paths.
pub open spec fn selected_part(u: UniqueModel) -> Result<Part, Seq<char>> {
    match u.selection {
        None => Ok(Part::Whole),
        Some(Selected::Only(paths)) => match paths_steps(paths, paths.len() as int) {
            Ok(lists) => Ok(Part::Only(lists)),
            Err(m) => Err(m),
        },
        Some(Selected::Except(paths)) => match paths_steps(paths, paths.len() as int) {
            Ok(lists) => Ok(Part::Except(lists)),
            Err(m) => Err(m),
        },
    }
}

/// Whether a plan is the one that a uniqueness attribute asks for, `part`
/// being the part that it selects: the name goes in front unless that was
/// switched off.
pub open spec fn plans(plan: UniquePlan, u: UniqueModel, part: Part) -> bool {
    &&& plan.part@ == part
    &&& plan.prefix == !(u.prefix matches Some(on) && !on)
    &&& plan.scope == u.scope
}

/// Plans how payloads are keyed. A path that does not parse is an error.
pub fn emit_unique_key(unique: &UniqueAttr) -> (r: Result<UniquePlan, String>)
    ensures
        match selected_part(unique@) {
            Ok(part) => r matches Ok(plan) && plans(plan, unique@, part),
            Err(m) => same_error(r, m),
        },
{
    let prefix = match unique.prefix {
        Some(on) => on,
        None => true,
    };
    let part = match &unique.selection {
        None => HashedPart::Whole,
        Some(UniqueSelection::Only(paths)) => match parse_paths(paths) {
            Ok(lists) => HashedPart::Only(lists),
            Err(m) => {
                return Err(m);
            },
        },
        Some(UniqueSelection::Except(paths)) => match parse_paths(paths) {
            Ok(lists) => HashedPart::Except(lists),
            Err(m) => {
                return Err(m);
            },
        },
    };
    Ok(UniquePlan { part, prefix, scope: unique.scope })
}

/// What a job type declares: its defaults, and how its payloads are keyed.
#[derive(Debug)]
pub struct DerivedKind {
    pub kind: JobKind,
    pub unique: Option<UniquePlan>,
}

/// Whether `kind` holds the defaults that attributes set, on a type that is
/// named `ident` in Rust: what is not set keeps its usual default.
pub open spec fn declares(kind: JobKind, ident: Seq<char>, attrs: ZizqAttrs) -> bool {
    &&& kind.name@ == match attrs.name {
        Some(name) => name@,
        None => ident,
    }
    &&& kind.queue@ == match attrs.queue {
        Some(queue) => queue@,
        None => "default"@,
    }
    &&& kind.priority == attrs.priority
    &&& kind.retry_limit == attrs.retry_limit
    &&& kind.backoff == attrs.backoff
    &&& kind.retention == attrs.retention
    &&& kind.budgets@.len() == 0
}

/// Derives what a job type declares from its attributes; `ident` is the
/// name of the type in Rust.
pub fn derive_job_kind_impl(ident: &str, attrs: ZizqAttrs) -> (r: Result<DerivedKind, String>)
    ensures
        match attrs.unique {
            None => r matches Ok(d) && declares(d.kind, ident@, attrs) && d.unique is None,
            Some(u) => match selected_part(u@) {
                Ok(part) => r matches Ok(d) && declares(d.kind, ident@, attrs) && (
                d.unique matches Some(plan) && plans(plan, u@, part)),
                Err(m) => same_error(r, m),
            },
        },
{
    let unique = match &attrs.unique {
        Some(u) => match emit_unique_key(u) {
            Ok(plan) => Some(plan),
            Err(m) => {
                return Err(m);
            },
        },
        None => None,
    };
    let base = JobKind::new(ident);
    let kind = JobKind {
        name: match attrs.name {
            Some(name) => name,
            None => base.name,
        },
        queue: match attrs.queue {
            Some(queue) => queue,
            None => base.queue,
        },
        priority: attrs.priority,
        retry_limit: attrs.retry_limit,
        backoff: attrs.backoff,
        retention: attrs.retention,
        budgets: base.budgets,
    };
    Ok(DerivedKind { kind, unique })
}

/// The key of a payload does not depend on the order of its object
/// entries, whatever part of it is hashed.
pub proof fn law_key_ignores_key_order(
    part: Part,
    prefix: bool,
    name: Seq<char>,
    a: Json,
    b: Json,
)
    requires
        distinct_keys(a),
        distinct_keys(b),
        same_json(a, b),
    ensures
        planned_key(part, prefix, name, a) == planned_key(part, prefix, name, b),
{
    match part {
        Part::Whole => {},
        Part::Only(paths) => {
            law_pick_ignores_key_order(a, b, paths);
            law_pick_keeps_keys_distinct(a, paths);
            law_pick_keeps_keys_distinct(b, paths);
        },
        Part::Except(paths) => {
            law_exclusion_ignores_key_order(a, b, paths, paths.len() as int);
        },
    }
    law_hash_ignores_key_order(part.of(a), part.of(b));
}

/// The key of what some paths pick out of a payload does not depend on the
/// order of the paths, on how often one is given, or on those that are
/// missing from the payload.
pub proof fn law_key_ignores_path_order(
    prefix: bool,
    name: Seq<char>,
    payload: Json,
    a: Seq<Seq<Step>>,
    b: Seq<Seq<Step>>,
)
    requires
        distinct_keys(payload),
        same_paths(payload, a, b),
    ensures
        planned_key(Part::Only(a), prefix, name, payload) == planned_key(
            Part::Only(b),
            prefix,
            name,
            payload,
        ),
{
    law_pick_ignores_path_order(payload, a, b);
    law_pick_keeps_keys_distinct(payload, a);
    law_pick_keeps_keys_distinct(payload, b);
    law_hash_ignores_key_order(Part::Only(a).of(payload), Part::Only(b).of(payload));
}

/// Payloads that differ only in what is at an excluded path have the same
/// key.
pub proof fn law_excluded_path_does_not_matter(
    prefix: bool,
    name: Seq<char>,
    payload: Json,
    path: Seq<Step>,
    other: Json,
)
    requires
        path.len() > 0,
        at_path(payload, path) is Some,
    ensures
        planned_key(Part::Except(seq![path]), prefix, name, with_path(payload, path, other))
            == planned_key(Part::Except(seq![path]), prefix, name, payload),
{
    law_remove_forgets_what_was_there(payload, path, other);
    let paths = seq![path];
    assert(paths[0] == path);
    reveal_with_fuel(without_paths, 3);
}

} // verus!
