//! The tokens of JSON numbers that are not integers.

use vstd::prelude::*;
use crate::json::{entry_models, group_value_models, models, Json, Number, Value};
use crate::text::{chars_of, digits_end, is_digit, lemma_digits_end, skip_digits};

verus! {

/// Where the digits of a number start: behind its sign.
pub open spec fn int_start(t: Seq<char>) -> int {
    if t.len() > 0 && t[0] == '-' {
        1
    } else {
        0
    }
}

/// Whether a number has an integer part that starts at `i`: digits, with
/// no zero in front of another.
pub open spec fn has_int(t: Seq<char>, i: int) -> bool {
    digits_end(t, i) > i && (t[i] == '0' ==> digits_end(t, i) == i + 1)
}

/// Where the fraction that may start at `i` ends.
pub open spec fn fraction_end(t: Seq<char>, i: int) -> int {
    if i < t.len() && t[i] == '.' && digits_end(t, i + 1) > i + 1 {
        digits_end(t, i + 1)
    } else {
        i
    }
}

/// Where the digits of an exponent start that itself starts at `i`.
pub open spec fn exponent_start(t: Seq<char>, i: int) -> int {
    if i + 1 < t.len() && (t[i + 1] == '+' || t[i + 1] == '-') {
        i + 2
    } else {
        i + 1
    }
}

/// Where the exponent that may start at `i` ends.
pub open spec fn exponent_end(t: Seq<char>, i: int) -> int {
    if i < t.len() && (t[i] == 'e' || t[i] == 'E') && digits_end(t, exponent_start(t, i))
        > exponent_start(t, i) {
        digits_end(t, exponent_start(t, i))
    } else {
        i
    }
}

/// Whether `t` is the JSON token of a number with a fraction or an
/// exponent.
pub open spec fn is_float_token(t: Seq<char>) -> bool {
    let start = int_start(t);
    let int_end = digits_end(t, start);
    &&& has_int(t, start)
    &&& exponent_end(t, fraction_end(t, int_end)) == t.len()
    &&& int_end < t.len()
}

/// Whether every number in `v` that is not an integer is a JSON number.
pub open spec fn numbers_hold(v: Json) -> bool
    decreases v,
{
    match v {
        Json::Float(t) => is_float_token(t),
        Json::Arr(items) => forall|i: int|
            #![trigger items[i]]
            0 <= i < items.len() ==> numbers_hold(items[i]),
        Json::Obj(entries) => forall|i: int|
            #![trigger entries[i]]
            0 <= i < entries.len() ==> numbers_hold(entries[i].1),
        _ => true,
    }
}

/// Whether `token` is the JSON token of a number with a fraction or an
/// exponent.
pub fn is_float(token: &str) -> (r: bool)
    ensures
        r == is_float_token(token@),
{
    let t = chars_of(token);
    let start: usize = if t.len() > 0 && t[0] == '-' {
        1
    } else {
        0
    };
    let int_end = skip_digits(&t, start);
    if int_end == start || (t[start] == '0' && int_end != start + 1) || int_end == t.len() {
        return false;
    }
    let mut at: usize = int_end;
    if t[at] == '.' {
        let end = skip_digits(&t, at + 1);
        if end > at + 1 {
            at = end;
        }
    }
    assert(at == fraction_end(t@, int_end as int));
    if at < t.len() && (t[at] == 'e' || t[at] == 'E') {
        let digits: usize = if t.len() - at > 1 && (t[at + 1] == '+' || t[at + 1] == '-') {
            at + 2
        } else {
            at + 1
        };
        let end = skip_digits(&t, digits);
        if end > digits {
            at = end;
        }
    }
    at == t.len()
}

/// Whether every number in `value` that is not an integer is a JSON number.
pub fn has_valid_numbers(value: &Value) -> (r: bool)
    ensures
        r == numbers_hold(value@),
    decreases value,
{
    broadcast use group_value_models;

    match value {
        Value::Number(Number::Float(t)) => is_float(t.as_str()),
        Value::Array(items) => {
            let ghost all = models(items@);
            let mut i: usize = 0;
            while i < items.len()
                invariant
                    *value matches Value::Array(its) && its == *items,
                    all == models(items@),
                    value@ == Json::Arr(all),
                    i <= items@.len(),
                    forall|j: int| 0 <= j < i ==> numbers_hold(#[trigger] all[j]),
                decreases items@.len() - i,
            {
                if !has_valid_numbers(&items[i]) {
                    assert(!numbers_hold(value@->Arr_0[i as int]));
                    return false;
                }
                i += 1;
            }
            true
        },
        Value::Object(entries) => {
            let ghost all = entry_models(entries@);
            let mut i: usize = 0;
            while i < entries.len()
                invariant
                    *value matches Value::Object(es) && es == *entries,
                    all == entry_models(entries@),
                    value@ == Json::Obj(all),
                    i <= entries@.len(),
                    forall|j: int| 0 <= j < i ==> numbers_hold((#[trigger] all[j]).1),
                decreases entries@.len() - i,
            {
                if !has_valid_numbers(&entries[i].1) {
                    assert(!numbers_hold(value@->Obj_0[i as int].1));
                    return false;
                }
                i += 1;
            }
            true
        },
        _ => true,
    }
}

/// Whether `c` can stand in the token of a number.
pub open spec fn is_number_char(c: char) -> bool {
    is_digit(c) || c == '-' || c == '+' || c == '.' || c == 'e' || c == 'E'
}

/// Digits up to where a run of them ends.
proof fn lemma_run_is_digits(t: Seq<char>, i: int, k: int)
    requires
        0 <= i <= k < digits_end(t, i),
    ensures
        k < t.len(),
        is_digit(t[k]),
    decreases k - i,
{
    if i < k {
        lemma_run_is_digits(t, i + 1, k);
    }
}

/// The token of a number that is not an integer is made of the characters
/// of numbers, starts like a number, and holds one character that no
/// integer has.
pub proof fn lemma_float_token(t: Seq<char>)
    requires
        is_float_token(t),
    ensures
        t.len() > 0,
        t[0] == '-' || is_digit(t[0]),
        forall|k: int| 0 <= k < t.len() ==> is_number_char(#[trigger] t[k]),
        exists|k: int| 0 <= k < t.len() && !is_digit(#[trigger] t[k]) && t[k] != '-',
{
    let start = int_start(t);
    let int_end = digits_end(t, start);
    let frac_end = fraction_end(t, int_end);
    lemma_digits_end(t, start);
    if int_end + 1 <= t.len() {
        lemma_digits_end(t, int_end + 1);
    }
    lemma_run_is_digits(t, start, start);
    assert(!is_digit(t[int_end]));
    assert(t[int_end] == '.' || t[int_end] == 'e' || t[int_end] == 'E');
    assert forall|k: int| 0 <= k < t.len() implies is_number_char(#[trigger] t[k]) by {
        if start <= k < int_end {
            lemma_run_is_digits(t, start, k);
        } else if int_end < k < frac_end {
            lemma_run_is_digits(t, int_end + 1, k);
        } else if k >= exponent_start(t, frac_end) {
            lemma_run_is_digits(t, exponent_start(t, frac_end), k);
        }
    }
}

} // verus!
