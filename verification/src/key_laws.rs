//! How uniqueness keys are made, and what a derived job type declares.

use vstd::prelude::*;
use vstd::string::*;
use vstd::utf8::*;
use crate::attrs::{UniqueAttr, UniqueSelection, ZizqAttrs};
use crate::derive::{
    derive_job_kind_impl, emit_unique_key, paths_steps, DerivedKind, HashedPart,
    UniquePlan,
};
use crate::hashable::{payload_except, payload_only};
use crate::job::JobKind;
use crate::jq_parse::{parsed, Parsed};
use crate::jq_path::{step_lists, steps, PathStep};
use crate::json::Value;
use crate::json_text::{compact, sort_keys};
use crate::list_jobs::Order;
use crate::list_laws::status_word;
use crate::resources::JobStatus;
use crate::send_laws::scope_word;
use crate::text::{hex_char, texts};
use crate::unique_key::{hex, sha256, UniqueKey, UniqueScope};

verus! {

/// The value of a lowercase hexadecimal digit.
pub open spec fn hex_value(c: char) -> int {
    if '0' <= c <= '9' {
        c as int - '0' as int
    } else {
        c as int - 'a' as int + 10
    }
}

/// Whether `s` is some bytes in lowercase hexadecimal, two digits for each.
pub open spec fn spells(s: Seq<char>, bytes: Seq<u8>) -> bool {
    &&& s.len() == 2 * bytes.len()
    &&& forall|i: int|
        0 <= i < bytes.len() ==> #[trigger] bytes[i] == 16 * hex_value(s[2 * i]) + hex_value(
            s[2 * i + 1],
        )
    &&& forall|i: int|
        0 <= i < s.len() ==> '0' <= #[trigger] s[i] <= '9' || 'a' <= s[i] <= 'f'
}

proof fn lemma_hex_char(d: int)
    requires
        0 <= d < 16,
    ensures
        hex_value(hex_char(d)) == d,
        '0' <= hex_char(d) <= '9' || 'a' <= hex_char(d) <= 'f',
{
    reveal_strlit("0123456789abcdef");
}

proof fn lemma_hex_spells(bytes: Seq<u8>)
    ensures
        spells(hex(bytes), bytes),
{
    let s = hex(bytes);
    assert forall|i: int| 0 <= i < bytes.len() implies #[trigger] bytes[i] == 16 * hex_value(
        s[2 * i],
    ) + hex_value(s[2 * i + 1]) by {
        assert((2 * i) / 2 == i && (2 * i) % 2 == 0);
        assert((2 * i + 1) / 2 == i && (2 * i + 1) % 2 == 1);
        lemma_hex_char(bytes[i] as int / 16);
        lemma_hex_char(bytes[i] as int % 16);
    }
    assert forall|i: int| 0 <= i < s.len() implies '0' <= #[trigger] s[i] <= '9' || 'a' <= s[i]
        <= 'f' by {
        let b = bytes[i / 2];
        lemma_hex_char(b as int / 16);
        lemma_hex_char(b as int % 16);
    }
}

/// A hash is the SHA-256 digest of the value's canonical text, in lowercase
/// hexadecimal; a tag stands in front of it with a colon. Neither has a scope
/// of its own.
pub proof fn law_key_is_the_digest_of_the_canonical_text(
    v: &Value,
    tag: &str,
    plain: UniqueKey,
    tagged: UniqueKey,
)
    requires
        call_ensures(UniqueKey::hash_of, (v,), plain),
        call_ensures(UniqueKey::tagged_hash_of, (tag, v), tagged),
    ensures
        spells(plain.key@, sha256(encode_utf8(compact(sort_keys(v@))))),
        plain.scope is None,
        tagged.key@ == tag@ + seq![':'] + plain.key@,
        tagged.scope is None,
{
    reveal_strlit(":");
    assert(":"@ =~= seq![':']);
    lemma_hex_spells(sha256(encode_utf8(compact(sort_keys(v@)))));
}

/// A key that is given as a text is that text, without a scope; a scope is
/// attached to it and changes nothing else.
pub proof fn law_raw_key_is_the_text(
    text: &str,
    owned: String,
    scope: UniqueScope,
    k: UniqueKey,
    set: UniqueKey,
)
    ensures
        call_ensures(UniqueKey::raw, (text,), k) ==> k.key@ == text@ && k.scope is None,
        call_ensures(UniqueKey::scope, (k, scope), set) ==> set.key == k.key && set.scope == Some(
            scope,
        ),
{
}

/// Each status, scope and order has its own word, and is read from it.
pub proof fn law_words_of_the_api(
    status: JobStatus,
    scope: UniqueScope,
    order: Order,
    word: &'static str,
    name: &str,
    status_read: JobStatus,
    scope_read: UniqueScope,
)
    ensures
        call_ensures(JobStatus::as_str, (status,), word) ==> word@ == status_word(status),
        call_ensures(UniqueScope::as_str, (&scope,), word) ==> word@ == scope_word(scope),
        call_ensures(Order::as_str, (order,), word) ==> (order == Order::Asc ==> word@ == "asc"@)
            && (order == Order::Desc ==> word@ == "desc"@),
        call_ensures(JobStatus::from_name, (name,), status_read) && name@ == status_word(status)
            ==> status_read == status,
        call_ensures(UniqueScope::from_name, (name,), scope_read) && name@ == scope_word(scope)
            ==> scope_read == scope,
{
    crate::resources::law_status_name_round_trip(status);
    crate::unique_key::law_scope_name_round_trip(scope);
}

/// The key of a payload is the hash of the part that the plan selects: all of
/// it, what its paths pick, or what its paths leave; with the name of the job
/// type in front where the plan says so, and with the plan's scope.
pub proof fn law_planned_key_hashes_the_selected_part(
    plan: UniquePlan,
    name: &str,
    payload: &Value,
    paths: &[Vec<PathStep>],
    selected: Value,
    alone: UniqueKey,
    r: UniqueKey,
)
    requires
        call_ensures(UniquePlan::unique_key, (&plan, name, payload), r),
        call_ensures(UniqueKey::hash_of, (&selected,), alone),
        plan.part is Whole ==> selected@ == payload@,
        plan.part matches HashedPart::Only(lists) ==> paths@ == lists@ && call_ensures(
            payload_only,
            (payload, paths),
            selected,
        ),
        plan.part matches HashedPart::Except(lists) ==> paths@ == lists@ && call_ensures(
            payload_except,
            (payload, paths),
            selected,
        ),
    ensures
        plan.prefix ==> r.key@ == name@ + seq![':'] + alone.key@,
        !plan.prefix ==> r.key@ == alone.key@,
        r.scope == plan.scope,
{
    reveal_strlit(":");
    assert(":"@ =~= seq![':']);
}

/// A plan selects by the paths of its attribute, each as it parses, in order;
/// without paths it takes the whole payload. The name goes in front unless
/// that was switched off, and the scope is the attribute's.
pub proof fn law_plan_follows_the_attribute(
    unique: UniqueAttr,
    r: Result<UniquePlan, String>,
    k: int,
)
    requires
        call_ensures(emit_unique_key, (&unique,), r),
    ensures
        unique.selection is None ==> (r matches Ok(plan) && plan.part is Whole),
        r matches Ok(plan) ==> plan.scope == unique.scope && plan.prefix == (unique.prefix
            != Some(false)),
        r matches Ok(plan) ==> (unique.selection matches Some(UniqueSelection::Only(paths)) ==> (
        plan.part matches HashedPart::Only(lists) && lists@.len() == paths@.len() && (0 <= k
            < paths@.len() ==> parsed(paths@[k]@) == Parsed::Steps(steps(lists@[k]@))))),
        r matches Ok(plan) ==> (unique.selection matches Some(UniqueSelection::Except(paths)) ==> (
        plan.part matches HashedPart::Except(lists) && lists@.len() == paths@.len() && (0 <= k
            < paths@.len() ==> parsed(paths@[k]@) == Parsed::Steps(steps(lists@[k]@))))),
        unique.selection matches Some(UniqueSelection::Only(paths)) ==> (0 <= k < paths@.len()
            && parsed(paths@[k]@) is Fault ==> r is Err),
        unique.selection matches Some(UniqueSelection::Except(paths)) ==> (0 <= k < paths@.len()
            && parsed(paths@[k]@) is Fault ==> r is Err),
{
    match unique.selection {
        Some(UniqueSelection::Only(paths)) => {
            let all = texts(paths@);
            assert(all.len() == paths@.len());
            lemma_paths_steps(all, all.len() as int, k);
            if 0 <= k < paths@.len() {
                assert(all[k] == paths@[k]@);
            }
            if let Ok(plan) = r {
                let lists = plan.part->Only_0;
                assert(step_lists(lists@).len() == lists@.len());
                if 0 <= k < lists@.len() {
                    assert(step_lists(lists@)[k] == steps(lists@[k]@));
                }
            }
        },
        Some(UniqueSelection::Except(paths)) => {
            let all = texts(paths@);
            assert(all.len() == paths@.len());
            lemma_paths_steps(all, all.len() as int, k);
            if 0 <= k < paths@.len() {
                assert(all[k] == paths@[k]@);
            }
            if let Ok(plan) = r {
                let lists = plan.part->Except_0;
                assert(step_lists(lists@).len() == lists@.len());
                if 0 <= k < lists@.len() {
                    assert(step_lists(lists@)[k] == steps(lists@[k]@));
                }
            }
        },
        None => {},
    }
}

proof fn lemma_paths_steps(paths: Seq<Seq<char>>, n: int, k: int)
    requires
        0 <= n <= paths.len(),
    ensures
        paths_steps(paths, n) matches Ok(lists) ==> lists.len() == n && (0 <= k < n ==> parsed(
            paths[k],
        ) == Parsed::Steps(lists[k])),
        0 <= k < n && parsed(paths[k]) is Fault ==> paths_steps(paths, n) is Err,
    decreases n,
{
    if n > 0 {
        lemma_paths_steps(paths, n - 1, k);
    }
}

/// A job type is called what its attribute says, else like its Rust type; its
/// queue is the attribute's, else `default`; its other settings are the
/// attribute's, and it is keyed as its attribute plans.
pub proof fn law_derived_kind_is_what_was_declared(
    ident: &str,
    attrs: ZizqAttrs,
    r: Result<DerivedKind, String>,
    plan: Result<UniquePlan, String>,
)
    requires
        call_ensures(derive_job_kind_impl, (ident, attrs), r),
        attrs.unique matches Some(u) ==> call_ensures(emit_unique_key, (&u,), plan),
    ensures
        r is Ok == (attrs.unique is None || plan is Ok),
        r matches Ok(d) ==> (attrs.name matches Some(n) ==> d.kind.name@ == n@) && (attrs.name
            is None ==> d.kind.name@ == ident@) && (attrs.queue matches Some(q) ==> d.kind.queue@
            == q@) && (attrs.queue is None ==> d.kind.queue@ == "default"@) && d.kind.priority
            == attrs.priority && d.kind.retry_limit == attrs.retry_limit && d.kind.backoff
            == attrs.backoff && d.kind.retention == attrs.retention && d.kind.budgets@.len() == 0
            && d.unique is Some == attrs.unique is Some,
        r matches Ok(d) ==> (attrs.unique is Some ==> d.unique->0.scope == plan->Ok_0.scope
            && d.unique->0.prefix == plan->Ok_0.prefix && d.unique->0.part@ == plan->Ok_0.part@),
        r matches Err(m) ==> (plan matches Err(n) && m@ == n@),
{
}

/// A job type that declares its name only goes to the queue `default`, with
/// nothing else set.
pub proof fn law_plain_kind_declares_its_name(name: &str, r: JobKind)
    requires
        call_ensures(JobKind::new, (name,), r),
    ensures
        r.name@ == name@,
        r.queue@ == "default"@,
        r.priority is None,
        r.retry_limit is None,
        r.backoff is None,
        r.retention is None,
        r.budgets@.len() == 0,
{
}

} // verus!
