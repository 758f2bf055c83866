//! Reading typed fields out of JSON objects.
//!
//! A field that may be absent may also be null; a field that is not asked
//! for is ignored. What has named fields may also come as an array of
//! their values, in the order of the fields.

use vstd::prelude::*;
use crate::json::{
    entry_models, find_key, group_value_models, lemma_position, lookup, models, Json, Number,
    Value,
};
use crate::text::{slice_texts, texts};

verus! {

/// The field `name` of a JSON object.
pub open spec fn get(v: Json, name: Seq<char>) -> Option<Json> {
    match v {
        Json::Obj(entries) => lookup(entries, name),
        _ => None,
    }
}

/// `v` as an object with the fields `names`: an array gives them by
/// position. It may leave out fields at the end, but not one of the first
/// `least`, and it may hold nothing else. Any other value stays as it is.
pub open spec fn record(v: Json, names: Seq<Seq<char>>, least: int) -> Json {
    match v {
        Json::Arr(items) => if least <= items.len() <= names.len() {
            Json::Obj(Seq::new(items.len(), |i: int| (names[i], items[i])))
        } else {
            Json::Null
        },
        _ => v,
    }
}

/// The only field of `v`, which is named `name`.
pub open spec fn sole(v: Json, name: Seq<char>) -> Option<Json> {
    match v {
        Json::Arr(items) => if items.len() == 1 {
            Some(items[0])
        } else {
            None
        },
        _ => get(v, name),
    }
}

/// The integer in the only field of `v`.
pub open spec fn sole_int(v: Json, name: Seq<char>, low: int, high: int) -> Option<int> {
    match sole(v, name) {
        Some(f) => as_int(f, low, high),
        None => None,
    }
}

/// The name of a variant without data: a string, or the only key of an
/// object, with null as its value.
pub open spec fn as_variant(v: Json) -> Option<Seq<char>> {
    match v {
        Json::Str(s) => Some(s),
        Json::Obj(entries) => if entries.len() == 1 && entries[0].1 is Null {
            Some(entries[0].0)
        } else {
            None
        },
        _ => None,
    }
}

/// The name of the variant in the field `name`.
pub open spec fn variant_field(v: Json, name: Seq<char>) -> Option<Seq<char>> {
    match get(v, name) {
        Some(f) => as_variant(f),
        None => None,
    }
}

/// The name of the optional variant in the field `name`: `None` where it is
/// none.
pub open spec fn opt_variant_field(v: Json, name: Seq<char>) -> Option<Option<Seq<char>>> {
    match get_present(v, name) {
        Some(f) => match as_variant(f) {
            Some(s) => Some(Some(s)),
            None => None,
        },
        None => Some(None),
    }
}

/// The field `name`, where it is there and not null.
pub open spec fn get_present(v: Json, name: Seq<char>) -> Option<Json> {
    match get(v, name) {
        Some(Json::Null) => None,
        found => found,
    }
}

/// The text of a JSON string.
pub open spec fn as_text(v: Json) -> Option<Seq<char>> {
    match v {
        Json::Str(s) => Some(s),
        _ => None,
    }
}

/// The integer of a JSON number between `low` and `high`.
pub open spec fn as_int(v: Json, low: int, high: int) -> Option<int> {
    match v {
        Json::Int(n) => if low <= n <= high {
            Some(n)
        } else {
            None
        },
        _ => None,
    }
}

/// The truth value of a JSON boolean.
pub open spec fn as_bool(v: Json) -> Option<bool> {
    match v {
        Json::Bool(b) => Some(b),
        _ => None,
    }
}

/// The text field `name`.
pub open spec fn text_field(v: Json, name: Seq<char>) -> Option<Seq<char>> {
    match get(v, name) {
        Some(f) => as_text(f),
        None => None,
    }
}

/// The integer field `name`.
pub open spec fn int_field(v: Json, name: Seq<char>, low: int, high: int) -> Option<int> {
    match get(v, name) {
        Some(f) => as_int(f, low, high),
        None => None,
    }
}

/// The optional text field `name`: `None` where it has another type.
pub open spec fn opt_text_field(v: Json, name: Seq<char>) -> Option<Option<Seq<char>>> {
    match get_present(v, name) {
        Some(f) => match as_text(f) {
            Some(s) => Some(Some(s)),
            None => None,
        },
        None => Some(None),
    }
}

/// The optional integer field `name`: `None` where it has another type or
/// is out of range.
pub open spec fn opt_int_field(v: Json, name: Seq<char>, low: int, high: int) -> Option<
    Option<int>,
> {
    match get_present(v, name) {
        Some(f) => match as_int(f, low, high) {
            Some(n) => Some(Some(n)),
            None => None,
        },
        None => Some(None),
    }
}

/// The optional boolean field `name`: `None` where it has another type.
pub open spec fn opt_bool_field(v: Json, name: Seq<char>) -> Option<Option<bool>> {
    match get_present(v, name) {
        Some(f) => match as_bool(f) {
            Some(b) => Some(Some(b)),
            None => None,
        },
        None => Some(None),
    }
}

/// Whether `v` is an array of strings.
pub open spec fn is_text_list(v: Json) -> bool {
    v matches Json::Arr(items) && forall|i: int|
        0 <= i < items.len() ==> (#[trigger] items[i]) is Str
}

/// The texts of an array of strings.
pub open spec fn text_list(v: Json) -> Seq<Seq<char>> {
    Seq::new(v->Arr_0.len(), |i: int| v->Arr_0[i]->Str_0)
}

/// Reads the field `name` of an object.
pub fn read_field<'a>(v: &'a Value, name: &str) -> (r: Option<&'a Value>)
    ensures
        r is Some == get(v@, name@) is Some,
        r matches Some(f) ==> get(v@, name@) == Some(f@),
{
    broadcast use group_value_models;

    match v {
        Value::Object(entries) => {
            proof {
                lemma_position(entry_models(entries@), name@);
            }
            match find_key(entries, name) {
                Some(i) => Some(&entries[i].1),
                None => None,
            }
        },
        _ => None,
    }
}

/// Reads the field `name`, where it is there and not null.
pub fn read_present<'a>(v: &'a Value, name: &str) -> (r: Option<&'a Value>)
    ensures
        r is Some == get_present(v@, name@) is Some,
        r matches Some(f) ==> get_present(v@, name@) == Some(f@),
{
    match read_field(v, name) {
        Some(Value::Null) => None,
        found => found,
    }
}

/// Reads an integer between `low` and `high`.
pub fn read_int(v: &Value, low: i128, high: i128) -> (r: Option<i128>)
    ensures
        r is Some == as_int(v@, low as int, high as int) is Some,
        r matches Some(n) ==> as_int(v@, low as int, high as int) == Some(n as int),
{
    let n: i128 = match v {
        Value::Number(Number::PosInt(n)) => *n as i128,
        Value::Number(Number::NegInt(n)) => *n as i128,
        _ => {
            return None;
        },
    };
    if low <= n && n <= high {
        Some(n)
    } else {
        None
    }
}

/// Reads the text field `name`.
pub fn read_text_field(v: &Value, name: &str) -> (r: Option<String>)
    ensures
        r is Some == text_field(v@, name@) is Some,
        r matches Some(s) ==> text_field(v@, name@) == Some(s@),
{
    match read_field(v, name) {
        Some(Value::String(s)) => Some(s.clone()),
        _ => None,
    }
}

/// Reads the integer field `name`.
pub fn read_int_field(v: &Value, name: &str, low: i128, high: i128) -> (r: Option<i128>)
    ensures
        r is Some == int_field(v@, name@, low as int, high as int) is Some,
        r matches Some(n) ==> int_field(v@, name@, low as int, high as int) == Some(n as int),
{
    match read_field(v, name) {
        Some(f) => read_int(f, low, high),
        None => None,
    }
}

/// Reads the optional text field `name`.
pub fn read_opt_text_field(v: &Value, name: &str) -> (r: Option<Option<String>>)
    ensures
        r is Some == opt_text_field(v@, name@) is Some,
        r matches Some(s) ==> opt_text_field(v@, name@) == Some(crate::text::opt_text(s)),
{
    match read_present(v, name) {
        Some(Value::String(s)) => Some(Some(s.clone())),
        Some(_) => None,
        None => Some(None),
    }
}

/// Reads the optional integer field `name`.
pub fn read_opt_int_field(v: &Value, name: &str, low: i128, high: i128) -> (r: Option<
    Option<i128>,
>)
    ensures
        r is Some == opt_int_field(v@, name@, low as int, high as int) is Some,
        r matches Some(Some(n)) ==> opt_int_field(v@, name@, low as int, high as int) == Some(
            Some(n as int),
        ),
        r matches Some(None) ==> opt_int_field(v@, name@, low as int, high as int) == Some(
            None::<int>,
        ),
{
    match read_present(v, name) {
        Some(f) => match read_int(f, low, high) {
            Some(n) => Some(Some(n)),
            None => None,
        },
        None => Some(None),
    }
}

/// Reads the optional boolean field `name`.
pub fn read_opt_bool_field(v: &Value, name: &str) -> (r: Option<Option<bool>>)
    ensures
        r == opt_bool_field(v@, name@),
{
    match read_present(v, name) {
        Some(Value::Bool(b)) => Some(Some(*b)),
        Some(_) => None,
        None => Some(None),
    }
}

/// Reads an array as an object with the fields `names`.
pub fn by_position(items: &Vec<Value>, names: &Vec<&str>, least: usize) -> (r: Value)
    ensures
        r@ == record(Json::Arr(models(items@)), slice_texts(names@), least as int),
{
    broadcast use group_value_models;

    if items.len() < least || items.len() > names.len() {
        return Value::Null;
    }
    let mut entries: Vec<(String, Value)> = Vec::new();
    let mut i: usize = 0;
    while i < items.len()
        invariant
            i <= items@.len() <= names@.len(),
            entries@.len() == i,
            forall|j: int|
                0 <= j < i ==> (#[trigger] entries@[j]).0@ == names@[j]@ && entries@[j].1@
                    == items@[j]@,
        decreases items@.len() - i,
    {
        entries.push((names[i].to_owned(), items[i].copy()));
        i += 1;
    }
    assert(entry_models(entries@) =~= record(
        Json::Arr(models(items@)),
        slice_texts(names@),
        least as int,
    )->Obj_0);
    Value::Object(entries)
}

/// Reads the only field of `v`, which is named `name`.
pub fn read_sole<'a>(v: &'a Value, name: &str) -> (r: Option<&'a Value>)
    ensures
        r is Some == sole(v@, name@) is Some,
        r matches Some(f) ==> sole(v@, name@) == Some(f@),
{
    broadcast use group_value_models;

    match v {
        Value::Array(items) => if items.len() == 1 {
            assert(v@->Arr_0[0] == items@[0]@);
            Some(&items[0])
        } else {
            None
        },
        _ => read_field(v, name),
    }
}

/// Reads the integer in the only field of `v`.
pub fn read_sole_u64(v: &Value, name: &str) -> (r: Option<u64>)
    ensures
        r is Some == sole_int(v@, name@, 0, u64::MAX as int) is Some,
        r matches Some(n) ==> sole_int(v@, name@, 0, u64::MAX as int) == Some(n as int),
{
    match read_sole(v, name) {
        Some(f) => match read_int(f, 0, u64::MAX as i128) {
            Some(n) => Some(n as u64),
            None => None,
        },
        None => None,
    }
}

/// Reads the name of a variant without data.
pub fn read_variant(v: &Value) -> (r: Option<String>)
    ensures
        r is Some == as_variant(v@) is Some,
        r matches Some(s) ==> as_variant(v@) == Some(s@),
{
    broadcast use group_value_models;

    match v {
        Value::String(s) => Some(s.clone()),
        Value::Object(entries) => {
            if entries.len() != 1 {
                return None;
            }
            assert(v@->Obj_0[0] == (entries@[0].0@, entries@[0].1@));
            match &entries[0].1 {
                Value::Null => Some(entries[0].0.clone()),
                _ => None,
            }
        },
        _ => None,
    }
}

/// Reads the variant in the field `name`.
pub fn read_variant_field(v: &Value, name: &str) -> (r: Option<String>)
    ensures
        r is Some == variant_field(v@, name@) is Some,
        r matches Some(s) ==> variant_field(v@, name@) == Some(s@),
{
    match read_field(v, name) {
        Some(f) => read_variant(f),
        None => None,
    }
}

/// Reads the optional variant in the field `name`.
pub fn read_opt_variant_field(v: &Value, name: &str) -> (r: Option<Option<String>>)
    ensures
        r is Some == opt_variant_field(v@, name@) is Some,
        r matches Some(s) ==> opt_variant_field(v@, name@) == Some(crate::text::opt_text(s)),
{
    match read_present(v, name) {
        Some(f) => match read_variant(f) {
            Some(s) => Some(Some(s)),
            None => None,
        },
        None => Some(None),
    }
}

/// Reads an array of strings.
pub fn read_text_list(v: &Value) -> (r: Option<Vec<String>>)
    ensures
        r is Some == is_text_list(v@),
        r matches Some(list) ==> texts(list@) == text_list(v@),
{
    broadcast use group_value_models;

    match v {
        Value::Array(items) => {
            let ghost all = models(items@);
            let mut out: Vec<String> = Vec::new();
            let mut i: usize = 0;
            while i < items.len()
                invariant
                    all == models(items@),
                    v@ == Json::Arr(all),
                    i <= items@.len(),
                    out@.len() == i,
                    forall|j: int|
                        0 <= j < i ==> (#[trigger] all[j]) == Json::Str(out@[j]@),
                decreases items@.len() - i,
            {
                match &items[i] {
                    Value::String(s) => {
                        out.push(s.clone());
                        assert(all[i as int] == Json::Str(s@));
                    },
                    _ => {
                        assert(!(all[i as int] is Str));
                        return None;
                    },
                }
                i += 1;
            }
            assert(texts(out@) =~= text_list(v@));
            Some(out)
        },
        _ => None,
    }
}

} // verus!
