//! What the text of a JSON value is, piece by piece.

use vstd::prelude::*;
use vstd::seq_lib::*;
use vstd::string::*;
use vstd::utf8::*;
use crate::canonical_laws::{keys_ascend, law_canonical_keys_ascend, lemma_sorted_entries};
use crate::encode::{encode_body, msgpack_form};
use crate::error::ZizqError;
use crate::format::Format;
use crate::jq_expr::{jq_array_prefix_eq, jq_contains, jq_eq};
use crate::json::{
    distinct_keys, has_key, lemma_position_is, lookup, same_json, Json, Value,
};
use crate::json_text::{
    canonical, compact, compact_entries, compact_items, names, sort_keys, string_token,
    write_canonical, write_compact,
};
use crate::list_laws::{behind_commas, lemma_behind_commas_push, with_commas};
use crate::name_order::{bytes_leq, lemma_name_order_total, name_order, sorted_names};
use crate::number_text::{is_float, is_float_token, numbers_hold};
use crate::router::{route_names, Router};
use crate::text::{
    all_digits, decimal, decimal_text, decimal_value, digits_end, is_digit,
        lemma_decimal_round_trip,
    lemma_digits_end_is, slice_texts,
};

verus! {

/// Whether `s` is the integer `n` in decimal, a minus sign before a negative
/// one.
pub open spec fn writes_int(s: Seq<char>, n: int) -> bool {
    if n < 0 {
        s.len() > 1 && s[0] == '-' && all_digits(s.skip(1)) && decimal_value(s.skip(1)) == -n
    } else {
        s.len() > 0 && all_digits(s) && decimal_value(s) == n
    }
}

proof fn lemma_items_text(items: Seq<Json>, n: int)
    requires
        0 <= n <= items.len(),
    ensures
        compact_items(items, n) == with_commas(Seq::new(n as nat, |i: int| compact(items[i]))),
    decreases n,
{
    reveal_strlit(",");
    assert(","@ =~= seq![',']);
    let all = Seq::new(n as nat, |i: int| compact(items[i]));
    if n == 1 {
        assert(all.drop_first() =~= Seq::empty());
        assert(behind_commas(all.drop_first()) =~= Seq::empty());
        assert(with_commas(all) =~= compact(items[0]));
    } else if n > 1 {
        lemma_items_text(items, n - 1);
        let before = Seq::new((n - 1) as nat, |i: int| compact(items[i]));
        let last = compact(items[n - 1]);
        assert(all.drop_first() =~= before.drop_first().push(last));
        lemma_behind_commas_push(before.drop_first(), last);
        assert(with_commas(all) =~= with_commas(before) + seq![','] + last);
    }
}

/// The text of an entry: its name, a colon, its value.
pub open spec fn entry_text(e: (Seq<char>, Json)) -> Seq<char> {
    string_token(e.0) + seq![':'] + compact(e.1)
}

proof fn lemma_entries_text(entries: Seq<(Seq<char>, Json)>, n: int)
    requires
        0 <= n <= entries.len(),
    ensures
        compact_entries(entries, n) == with_commas(
            Seq::new(n as nat, |i: int| entry_text(entries[i])),
        ),
    decreases n,
{
    reveal_strlit(",");
    reveal_strlit(":");
    assert(","@ =~= seq![',']);
    assert(":"@ =~= seq![':']);
    let all = Seq::new(n as nat, |i: int| entry_text(entries[i]));
    if n == 1 {
        assert(all.drop_first() =~= Seq::empty());
        assert(behind_commas(all.drop_first()) =~= Seq::empty());
        assert(with_commas(all) =~= entry_text(entries[0]));
    } else if n > 1 {
        lemma_entries_text(entries, n - 1);
        let before = Seq::new((n - 1) as nat, |i: int| entry_text(entries[i]));
        let last = entry_text(entries[n - 1]);
        assert(all.drop_first() =~= before.drop_first().push(last));
        lemma_behind_commas_push(before.drop_first(), last);
        assert(with_commas(all) =~= with_commas(before) + seq![','] + last);
    }
}

/// The text of a value is its JSON: the three words, integers in decimal,
/// other numbers and strings by their tokens, arrays and objects with commas
/// between their parts, in order.
pub proof fn law_text_is_json(v: Json)
    ensures
        v is Null ==> compact(v) == "null"@,
        v == Json::Bool(true) ==> compact(v) == "true"@,
        v == Json::Bool(false) ==> compact(v) == "false"@,
        v matches Json::Int(n) ==> writes_int(compact(v), n),
        v matches Json::Float(t) ==> compact(v) == t,
        v matches Json::Str(s) ==> compact(v) == string_token(s),
        v matches Json::Arr(items) ==> compact(v) == seq!['['] + with_commas(
            Seq::new(items.len(), |i: int| compact(items[i])),
        ) + seq![']'],
        v matches Json::Obj(entries) ==> compact(v) == seq!['{'] + with_commas(
            Seq::new(entries.len(), |i: int| entry_text(entries[i])),
        ) + seq!['}'],
{
    reveal_strlit("-");
    reveal_strlit("[");
    reveal_strlit("]");
    reveal_strlit("{");
    reveal_strlit("}");
    match v {
        Json::Int(n) => {
            if n < 0 {
                lemma_decimal_round_trip((-n) as nat);
                assert(compact(v).skip(1) =~= decimal((-n) as nat));
            } else {
                lemma_decimal_round_trip(n as nat);
            }
        },
        Json::Arr(items) => {
            lemma_items_text(items, items.len() as int);
            assert("["@ =~= seq!['['] && "]"@ =~= seq![']']);
        },
        Json::Obj(entries) => {
            lemma_entries_text(entries, entries.len() as int);
            assert("{"@ =~= seq!['{'] && "}"@ =~= seq!['}']);
        },
        _ => {},
    }
}

/// Writing a value appends its text, the canonical one with sorted keys.
pub proof fn law_writing_appends_the_text(v: &Value, out: &mut String)
    ensures
        call_ensures(write_compact, (v, out), ()) ==> final(out)@ == old(out)@ + compact(v@),
        call_ensures(write_canonical, (v, out), ()) ==> final(out)@ == old(out)@ + compact(
            sort_keys(v@),
        ),
{
}

/// Sorting keys changes nothing but their order: the sorted value is the same
/// value, and its keys ascend.
pub proof fn law_sorted_value_is_the_same_value(v: Json)
    requires
        distinct_keys(v),
    ensures
        same_json(v, sort_keys(v)),
        keys_ascend(sort_keys(v)),
        canonical(v) == compact(sort_keys(v)),
    decreases v,
{
    law_canonical_keys_ascend(v);
    match v {
        Json::Arr(items) => {
            let sorted = sort_keys(v)->Arr_0;
            assert forall|i: int| #![trigger items[i]] 0 <= i < items.len() implies same_json(
                items[i],
                sorted[i],
            ) by {
                assert(distinct_keys(items[i]));
                law_sorted_value_is_the_same_value(items[i]);
            }
        },
        Json::Obj(entries) => {
            let sorted = sort_keys(v)->Obj_0;
            let order = sorted_names(names(entries));
            lemma_sorted_entries(entries);
            assert(sorted.len() == entries.len());
            assert forall|i: int| #![trigger entries[i]] 0 <= i < entries.len() implies has_key(
                sorted,
                entries[i].0,
            ) && same_json(entries[i].1, lookup(sorted, entries[i].0)->0) by {
                let key = entries[i].0;
                assert(order.contains(key));
                let j = choose|j: int| 0 <= j < order.len() && order[j] == key;
                assert(sorted[j] == (key, sort_keys(entries[i].1)));
                assert forall|k: int| 0 <= k < j implies (#[trigger] sorted[k]).0 != key by {
                    assert(sorted[k].0 == order[k]);
                }
                lemma_position_is(sorted, key, j);
                assert(distinct_keys(entries[i].1));
                law_sorted_value_is_the_same_value(entries[i].1);
            }
        },
        _ => {},
    }
}

/// A body is its JSON text in UTF-8, or the MessagePack of that text; one
/// that holds a number which JSON does not know is an error.
pub proof fn law_body_is_its_text(v: &Value, r: Result<Vec<u8>, ZizqError>)
    ensures
        call_ensures(encode_body, (v, Format::Json), r) ==> r is Ok == numbers_hold(v@) && (
        r matches Ok(bytes) ==> bytes@ == encode_utf8(compact(v@))),
        call_ensures(encode_body, (v, Format::MessagePack), r) ==> (r matches Ok(bytes)
            ==> msgpack_form(compact(v@)) == Some(bytes@)) && (numbers_hold(v@) && msgpack_form(
            compact(v@),
        ) is Some ==> r is Ok),
        call_ensures(encode_body, (v, Format::Json), r) || call_ensures(
            encode_body,
            (v, Format::MessagePack),
            r,
        ) ==> (r matches Err(e) ==> e is Encode),
{
}

/// A filter expression holds the text of the value that it compares with.
pub proof fn law_expressions_hold_the_value(v: &Value, r: Result<String, ZizqError>)
    ensures
        call_ensures(jq_eq, (v,), r) ==> (r matches Ok(s) && s@ == ". == "@ + compact(v@)),
        call_ensures(jq_contains, (v,), r) ==> (r matches Ok(s) && s@ == ". | contains("@ + compact(
            v@,
        ) + ")"@),
        call_ensures(jq_array_prefix_eq, (v,), r) ==> (v@ matches Json::Arr(items) ==> (
        r matches Ok(s) && s@ == ".[0:"@ + decimal(items.len()) + "] == "@ + compact(
            sort_keys(v@),
        ))) && (!(v@ is Arr) ==> (r matches Err(e) && e is Encode)),
{
}

/// A number in decimal is made of digits that stand for it.
pub proof fn law_decimal_text_stands_for_the_number(n: u64, r: String)
    requires
        call_ensures(decimal_text, (n,), r),
    ensures
        writes_int(r@, n as int),
{
    lemma_decimal_round_trip(n as nat);
}

/// Two values are the same where they are: arrays item by item, objects name
/// by name whatever order they have, anything else in itself.
pub proof fn law_sameness_is_by_parts(a: Value, b: Value, r: bool, i: int, key: Seq<char>)
    requires
        call_ensures(Value::same, (&a, &b), r),
    ensures
        r ==> (a@ is Arr == b@ is Arr) && (a@ is Obj == b@ is Obj),
        !(a@ is Arr) && !(a@ is Obj) ==> r == (a@ == b@),
        a@ matches Json::Arr(x) ==> (b@ matches Json::Arr(y) ==> (r ==> x.len() == y.len() && (0
            <= i < x.len() ==> same_json(x[i], y[i])))),
        a@ matches Json::Arr(x) ==> (b@ matches Json::Arr(y) ==> (x.len() == y.len()
            && (forall|k: int|
            0 <= k < x.len() ==> same_json(#[trigger] x[k], y[k])) ==> r)),
        a@ matches Json::Obj(x) ==> (b@ matches Json::Obj(y) ==> (r ==> x.len() == y.len() && (0
            <= i < x.len() ==> has_key(y, x[i].0) && same_json(x[i].1, lookup(y, x[i].0)->0)))),
        a@ matches Json::Obj(x) ==> (b@ matches Json::Obj(y) ==> (x.len() == y.len()
            && (forall|k: int|
            0 <= k < x.len() ==> has_key(y, (#[trigger] x[k]).0) && same_json(
                x[k].1,
                lookup(y, x[k].0)->0,
            )) ==> r)),
{
    if let Json::Arr(x) = a@ {
        if let Json::Arr(y) = b@ {
            if 0 <= i < x.len() {
                assert(x[i] == x[i]);
            }
        }
    }
    if let Json::Obj(x) = a@ {
        if let Json::Obj(y) = b@ {
            if 0 <= i < x.len() {
                assert(x[i] == x[i]);
            }
        }
    }
}

/// Looking a name up gives the value of its first entry: the entry is there
/// under that name, and none before it is.
pub proof fn law_lookup_finds_the_first_entry(
    entries: Seq<(Seq<char>, Json)>,
    name: Seq<char>,
    k: int,
)
    requires
        0 <= k < entries.len(),
        entries[k].0 == name,
        forall|j: int| 0 <= j < k ==> (#[trigger] entries[j]).0 != name,
    ensures
        lookup(entries, name) == Some(entries[k].1),
{
    lemma_position_is(entries, name, k);
}

/// A name that no entry has is not found.
pub proof fn law_missing_name_is_not_found(entries: Seq<(Seq<char>, Json)>, name: Seq<char>)
    requires
        forall|j: int| 0 <= j < entries.len() ==> (#[trigger] entries[j]).0 != name,
    ensures
        lookup(entries, name) is None,
{
    lemma_position_is(entries, name, entries.len() as int);
}

/// Names stand in the order of their bytes: at the first byte in which they
/// differ the smaller one comes first, and a name comes before those that it
/// starts.
pub proof fn law_names_stand_in_the_order_of_their_bytes(
    common: Seq<u8>,
    x: u8,
    y: u8,
    a: Seq<u8>,
    b: Seq<u8>,
)
    ensures
        bytes_leq(common + seq![x] + a, common + seq![y] + b) == (x < y || (x == y && bytes_leq(
            a,
            b,
        ))),
        bytes_leq(common, common + a),
        a.len() > 0 ==> !bytes_leq(common + a, common),
    decreases common.len(),
{
    let p = common + seq![x] + a;
    let q = common + seq![y] + b;
    if common.len() == 0 {
        assert(p =~= seq![x] + a);
        assert(q =~= seq![y] + b);
        assert(p.drop_first() =~= a);
        assert(q.drop_first() =~= b);
        assert(common + a =~= a);
    } else {
        let rest = common.drop_first();
        law_names_stand_in_the_order_of_their_bytes(rest, x, y, a, b);
        assert(p.drop_first() =~= rest + seq![x] + a);
        assert(q.drop_first() =~= rest + seq![y] + b);
        assert((common + a).drop_first() =~= rest + a);
        assert(p[0] == common[0] && q[0] == common[0] && (common + a)[0] == common[0]);
    }
}

/// The job types of a router come out in the order of their bytes, each as
/// often as it is there.
pub proof fn law_router_lists_its_types_in_order<S, H>(
    router: Router<S, H>,
    r: Vec<&str>,
    i: int,
    j: int,
)
    requires
        call_ensures(Router::<S, H>::names, (&router,), r),
    ensures
        0 <= i <= j < r@.len() ==> bytes_leq(encode_utf8(r@[i]@), encode_utf8(r@[j]@)),
        Seq::new(r@.len(), |k: int| r@[k]@).to_multiset() == Seq::new(
            router.routes@.len(),
            |k: int| router.routes@[k].0@,
        ).to_multiset(),
{
    let all = route_names(router.routes@);
    let order = sorted_names(all);
    assert(all =~= Seq::new(router.routes@.len(), |k: int| router.routes@[k].0@));
    assert(slice_texts(r@) =~= Seq::new(r@.len(), |k: int| r@[k]@));
    lemma_name_order_total();
    all.lemma_sort_by_ensures(name_order());
    if 0 <= i <= j < r@.len() {
        let leq = name_order();
        assert(slice_texts(r@)[i] == r@[i]@);
        assert(slice_texts(r@)[j] == r@[j]@);
        if i < j {
            assert(leq(order[i], order[j]));
        } else {
            assert(leq(order[i], order[i]));
        }
    }
}

/// A fraction is accepted as a number: digits, a dot, digits, with a minus
/// sign or without; digits alone are no fraction.
pub proof fn law_fractions_are_numbers(whole: Seq<char>, part: Seq<char>, token: &str, r: bool)
    requires
        whole.len() > 0,
        all_digits(whole),
        whole.len() > 1 ==> whole[0] != '0',
        part.len() > 0,
        all_digits(part),
        call_ensures(is_float, (token,), r),
    ensures
        token@ == whole + seq!['.'] + part ==> r,
        token@ == seq!['-'] + whole + seq!['.'] + part ==> r,
        token@ == whole ==> !r,
        token@.len() == 0 ==> !r,
{
    if token@ == whole + seq!['.'] + part {
        lemma_fraction(token@, 0, whole, part);
    }
    if token@ == seq!['-'] + whole + seq!['.'] + part {
        lemma_fraction(token@, 1, whole, part);
    }
    if token@ == whole {
        assert(is_digit(whole[0]));
        lemma_run_ends(whole, 0);
    }
}

proof fn lemma_run_ends(t: Seq<char>, i: int)
    requires
        0 <= i <= t.len(),
        forall|k: int| i <= k < t.len() ==> is_digit(#[trigger] t[k]),
    ensures
        digits_end(t, i) == t.len(),
    decreases t.len() - i,
{
    if i < t.len() {
        lemma_run_ends(t, i + 1);
    }
}

proof fn lemma_fraction(t: Seq<char>, i: int, whole: Seq<char>, part: Seq<char>)
    requires
        i == 0 || i == 1,
        i == 0 ==> t == whole + seq!['.'] + part,
        i == 1 ==> t == seq!['-'] + whole + seq!['.'] + part,
        whole.len() > 0,
        all_digits(whole),
        whole.len() > 1 ==> whole[0] != '0',
        part.len() > 0,
        all_digits(part),
    ensures
        is_float_token(t),
{
    let dot = i + whole.len();
    assert forall|k: int| i <= k < dot implies is_digit(#[trigger] t[k]) by {
        assert(t[k] == whole[k - i]);
    }
    assert(t[dot] == '.');
    assert(t.subrange(i, dot) =~= whole);
    lemma_digits_end_is(t, i, dot);
    assert forall|k: int| dot + 1 <= k < t.len() implies is_digit(#[trigger] t[k]) by {
        assert(t[k] == part[k - dot - 1]);
    }
    lemma_run_ends(t, dot + 1);
    assert(is_digit(t[i]));
}

} // verus!
