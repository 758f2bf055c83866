//! JSON text: compact rendering in document order, and canonical
//! rendering with sorted object keys.

use vstd::prelude::*;
use vstd::relations::*;
use vstd::seq_lib::*;
use vstd::string::*;
use crate::json::{
    entry_models, find_key, group_value_models, has_key, lemma_position, models, position, Json,
    Number, Value,
};
use crate::name_order::{lemma_name_order_total, name_order, sort_names, sorted_names};
use crate::text::{decimal, decimal_text, hex_char, slice_texts};

verus! {

/// How a character stands inside a JSON string: quotes, backslashes and
/// control characters are escaped, everything else stands for itself.
pub open spec fn escaped_char(c: char) -> Seq<char> {
    if c == '"' {
        seq!['\\', '"']
    } else if c == '\\' {
        seq!['\\', '\\']
    } else if c == '\u{8}' {
        seq!['\\', 'b']
    } else if c == '\u{9}' {
        seq!['\\', 't']
    } else if c == '\u{a}' {
        seq!['\\', 'n']
    } else if c == '\u{c}' {
        seq!['\\', 'f']
    } else if c == '\u{d}' {
        seq!['\\', 'r']
    } else if c <= '\u{1f}' {
        seq!['\\', 'u', '0', '0', hex_char(c as int / 16), hex_char(c as int % 16)]
    } else {
        seq![c]
    }
}

/// How some text stands inside a JSON string.
pub open spec fn escaped_text(s: Seq<char>) -> Seq<char>
    decreases s.len(),
{
    if s.len() == 0 {
        Seq::empty()
    } else {
        escaped_char(s[0]) + escaped_text(s.drop_first())
    }
}

/// The JSON token of a string: quoted and escaped.
pub open spec fn string_token(s: Seq<char>) -> Seq<char> {
    seq!['"'] + escaped_text(s) + seq!['"']
}

/// `serde_json::to_string` on a string slice, which cannot fail: the text
/// in quotes, in which quotes, backslashes and the control characters
/// below the space are escaped, by a letter where JSON has one and by
/// their number in hexadecimal otherwise.
#[verifier::external_body]
fn quote(s: &str) -> (r: String)
    ensures
        r@ == string_token(s@),
{
    serde_json::to_string(s).expect("a string serialises")
}

/// The JSON token of an integer.
pub open spec fn int_token(n: int) -> Seq<char> {
    if n < 0 {
        "-"@ + decimal((-n) as nat)
    } else {
        decimal(n as nat)
    }
}

/// The JSON text of `v`, without whitespace, objects in entry order.
pub open spec fn compact(v: Json) -> Seq<char>
    decreases v, 0int,
{
    match v {
        Json::Null => "null"@,
        Json::Bool(b) => if b {
            "true"@
        } else {
            "false"@
        },
        Json::Int(n) => int_token(n),
        Json::Float(t) => t,
        Json::Str(s) => string_token(s),
        Json::Arr(items) => "["@ + compact_items(items, items.len() as int) + "]"@,
        Json::Obj(entries) => "{"@ + compact_entries(entries, entries.len() as int) + "}"@,
    }
}

/// The texts of the first `n` items, separated by commas.
pub open spec fn compact_items(items: Seq<Json>, n: int) -> Seq<char>
    decreases items, n,
{
    if n <= 0 || n > items.len() {
        Seq::empty()
    } else if n == 1 {
        compact(items[0])
    } else {
        compact_items(items, n - 1) + ","@ + compact(items[n - 1])
    }
}

/// The texts of the first `n` entries, separated by commas.
pub open spec fn compact_entries(entries: Seq<(Seq<char>, Json)>, n: int) -> Seq<char>
    decreases entries, n,
{
    if n <= 0 || n > entries.len() {
        Seq::empty()
    } else {
        let entry = string_token(entries[n - 1].0) + ":"@ + compact(entries[n - 1].1);
        if n == 1 {
            entry
        } else {
            compact_entries(entries, n - 1) + ","@ + entry
        }
    }
}

/// The names of a sequence of entries.
pub open spec fn names(entries: Seq<(Seq<char>, Json)>) -> Seq<Seq<char>> {
    Seq::new(entries.len(), |i: int| entries[i].0)
}

/// `v` with the entries of every object in ascending order of their names.
pub open spec fn sort_keys(v: Json) -> Json
    decreases v,
{
    match v {
        Json::Arr(items) => Json::Arr(
            Seq::new(
                items.len(),
                |i: int|
                    if 0 <= i < items.len() {
                        sort_keys(items[i])
                    } else {
                        Json::Null
                    },
            ),
        ),
        Json::Obj(entries) => {
            let order = sorted_names(names(entries));
            Json::Obj(
                Seq::new(
                    order.len(),
                    |i: int|
                        {
                            let p = position(entries, order[i]);
                            if 0 <= p < entries.len() {
                                (order[i], sort_keys(entries[p].1))
                            } else {
                                (order[i], Json::Null)
                            }
                        },
                ),
            )
        },
        _ => v,
    }
}

/// The canonical JSON text of `v`: compact, with sorted object keys.
pub open spec fn canonical(v: Json) -> Seq<char> {
    compact(sort_keys(v))
}

fn write_int(n: i64, out: &mut String)
    ensures
        final(out)@ == old(out)@ + int_token(n as int),
{
    if n < 0 {
        out.append("-");
        let magnitude: u64 = (-(n as i128)) as u64;
        out.append(decimal_text(magnitude).as_str());
        assert(out@ =~= old(out)@ + int_token(n as int));
    } else {
        out.append(decimal_text(n as u64).as_str());
    }
}

/// Appends the compact JSON text of `value`.
pub fn write_compact(value: &Value, out: &mut String)
    ensures
        final(out)@ == old(out)@ + compact(value@),
    decreases value,
{
    broadcast use group_value_models;

    match value {
        Value::Null => out.append("null"),
        Value::Bool(b) => if *b {
            out.append("true")
        } else {
            out.append("false")
        },
        Value::Number(Number::PosInt(n)) => out.append(decimal_text(*n).as_str()),
        Value::Number(Number::NegInt(n)) => write_int(*n, out),
        Value::Number(Number::Float(t)) => out.append(t.as_str()),
        Value::String(s) => out.append(quote(s.as_str()).as_str()),
        Value::Array(items) => {
            let ghost all = models(items@);
            out.append("[");
            let mut i: usize = 0;
            assert(out@ =~= old(out)@ + "["@ + compact_items(all, 0));
            while i < items.len()
                invariant
                    *value matches Value::Array(its) && its == *items,
                    all == models(items@),
                    i <= items@.len(),
                    out@ == old(out)@ + "["@ + compact_items(all, i as int),
                decreases items@.len() - i,
            {
                if i > 0 {
                    out.append(",");
                }
                write_compact(&items[i], out);
                assert(out@ =~= old(out)@ + "["@ + compact_items(all, i + 1));
                i += 1;
            }
            out.append("]");
            assert(out@ =~= old(out)@ + compact(value@));
        },
        Value::Object(entries) => {
            let ghost all = entry_models(entries@);
            out.append("{");
            let mut i: usize = 0;
            assert(out@ =~= old(out)@ + "{"@ + compact_entries(all, 0));
            while i < entries.len()
                invariant
                    *value matches Value::Object(es) && es == *entries,
                    all == entry_models(entries@),
                    i <= entries@.len(),
                    out@ == old(out)@ + "{"@ + compact_entries(all, i as int),
                decreases entries@.len() - i,
            {
                if i > 0 {
                    out.append(",");
                }
                let entry = &entries[i];
                out.append(quote(entry.0.as_str()).as_str());
                out.append(":");
                write_compact(&entry.1, out);
                assert(out@ =~= old(out)@ + "{"@ + compact_entries(all, i + 1));
                i += 1;
            }
            out.append("}");
            assert(out@ =~= old(out)@ + compact(value@));
        },
    }
}

/// The names of the entries, in document order.
fn entry_names<'a>(entries: &'a Vec<(String, Value)>) -> (r: Vec<&'a str>)
    ensures
        slice_texts(r@) == names(entry_models(entries@)),
{
    let mut out: Vec<&'a str> = Vec::new();
    let mut i: usize = 0;
    while i < entries.len()
        invariant
            i <= entries@.len(),
            out@.len() == i,
            forall|j: int| 0 <= j < i ==> (#[trigger] out@[j])@ == entries@[j].0@,
        decreases entries@.len() - i,
    {
        out.push(entries[i].0.as_str());
        i += 1;
    }
    assert(slice_texts(out@) =~= names(entry_models(entries@)));
    out
}

/// Every sorted name is the name of some entry.
proof fn lemma_sorted_names_are_keys(entries: Seq<(Seq<char>, Json)>, i: int)
    requires
        0 <= i < sorted_names(names(entries)).len(),
    ensures
        has_key(entries, sorted_names(names(entries))[i]),
        0 <= position(entries, sorted_names(names(entries))[i]),
{
    let all = names(entries);
    let order = sorted_names(all);
    lemma_name_order_total();
    all.lemma_sort_by_ensures(name_order());
    let key = order[i];
    assert(order.contains(key));
    assert(all.contains(key));
    let j = choose|j: int| 0 <= j < all.len() && all[j] == key;
    lemma_position(entries, key);
    if !has_key(entries, key) {
        assert(entries[j].0 != key);
    }
}

/// Appends the canonical JSON text of `value`: object keys in ascending
/// order, arrays in their own order.
pub fn write_canonical(value: &Value, out: &mut String)
    ensures
        final(out)@ == old(out)@ + canonical(value@),
    decreases value,
{
    broadcast use group_value_models;

    match value {
        Value::Object(entries) => {
            let ghost all = entry_models(entries@);
            let ghost sorted = sort_keys(value@)->Obj_0;
            let unsorted = entry_names(entries);
            let order = sort_names(&unsorted);
            out.append("{");
            let mut i: usize = 0;
            assert(out@ =~= old(out)@ + "{"@ + compact_entries(sorted, 0));
            while i < order.len()
                invariant
                    *value matches Value::Object(es) && es == *entries,
                    all == entry_models(entries@),
                    value@ == Json::Obj(all),
                    slice_texts(order@) == sorted_names(names(all)),
                    sort_keys(value@) == Json::Obj(sorted),
                    sorted.len() == order@.len(),
                    i <= order@.len(),
                    out@ == old(out)@ + "{"@ + compact_entries(sorted, i as int),
                decreases order@.len() - i,
            {
                if i > 0 {
                    out.append(",");
                }
                let key = order[i];
                out.append(quote(key).as_str());
                out.append(":");
                proof {
                    lemma_sorted_names_are_keys(all, i as int);
                    assert(slice_texts(order@)[i as int] == key@);
                }
                if let Some(p) = find_key(entries, key) {
                    write_canonical(&entries[p].1, out);
                    assert(sorted[i as int] == (key@, sort_keys(entries@[p as int].1@)));
                }
                assert(out@ =~= old(out)@ + "{"@ + compact_entries(sorted, i + 1));
                i += 1;
            }
            out.append("}");
            assert(out@ =~= old(out)@ + canonical(value@));
        },
        Value::Array(items) => {
            let ghost all = models(items@);
            let ghost sorted = sort_keys(value@)->Arr_0;
            out.append("[");
            let mut i: usize = 0;
            assert(out@ =~= old(out)@ + "["@ + compact_items(sorted, 0));
            while i < items.len()
                invariant
                    *value matches Value::Array(its) && its == *items,
                    all == models(items@),
                    value@ == Json::Arr(all),
                    sort_keys(value@) == Json::Arr(sorted),
                    sorted.len() == items@.len(),
                    i <= items@.len(),
                    out@ == old(out)@ + "["@ + compact_items(sorted, i as int),
                decreases items@.len() - i,
            {
                if i > 0 {
                    out.append(",");
                }
                write_canonical(&items[i], out);
                assert(sorted[i as int] == sort_keys(items@[i as int]@));
                assert(out@ =~= old(out)@ + "["@ + compact_items(sorted, i + 1));
                i += 1;
            }
            out.append("]");
            assert(out@ =~= old(out)@ + canonical(value@));
        },
        _ => write_compact(value, out),
    }
}

} // verus!
