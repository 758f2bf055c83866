//! Canonical JSON text is the same for equal values and for no others.

use vstd::prelude::*;
use vstd::relations::*;
use vstd::seq_lib::*;
use vstd::string::*;
use vstd::utf8::*;
use crate::json::{
    distinct_keys, distinct_names, has_key, lemma_position, lemma_position_is, lookup, position,
    same_json, Json,
};
use crate::json_laws::{law_canonical_ignores_key_order, lemma_names_distinct};
use crate::json_text::{
    canonical, compact, compact_entries, compact_items, escaped_char, escaped_text, int_token,
    names, sort_keys, string_token,
};
use crate::name_order::{lemma_name_order_total, name_leq, name_order, sorted_names};
use crate::number_text::{is_number_char, lemma_float_token, numbers_hold};
use crate::text::{decimal, hex_char, is_digit, lemma_decimal_round_trip};

verus! {

proof fn lemma_hex_char_injective(a: int, b: int)
    requires
        0 <= a < 16,
        0 <= b < 16,
        hex_char(a) == hex_char(b),
    ensures
        a == b,
{
    reveal_strlit("0123456789abcdef");
}

/// What an escaped character is can be read off the text that it starts.
proof fn lemma_escaped_char_reads(c: char, d: char, x: Seq<char>, y: Seq<char>)
    requires
        escaped_char(c) + x == escaped_char(d) + y,
    ensures
        c == d,
        x == y,
{
    let p = escaped_char(c) + x;
    let q = escaped_char(d) + y;
    assert(p[0] == escaped_char(c)[0]);
    assert(q[0] == escaped_char(d)[0]);
    if escaped_char(c).len() > 1 && escaped_char(d).len() > 1 {
        assert(p[1] == escaped_char(c)[1]);
        assert(q[1] == escaped_char(d)[1]);
        if escaped_char(c).len() == 6 && escaped_char(d).len() == 6 {
            assert(p[4] == escaped_char(c)[4]);
            assert(q[4] == escaped_char(d)[4]);
            assert(p[5] == escaped_char(c)[5]);
            assert(q[5] == escaped_char(d)[5]);
            lemma_hex_char_injective(c as int / 16, d as int / 16);
            lemma_hex_char_injective(c as int % 16, d as int % 16);
        }
    }
    assert(c == d);
    assert(x =~= p.skip(escaped_char(c).len() as int));
    assert(y =~= q.skip(escaped_char(d).len() as int));
}

/// What an escaped text is can be read off what comes up to the closing
/// quote.
proof fn lemma_escaped_text_reads(s: Seq<char>, t: Seq<char>, x: Seq<char>, y: Seq<char>)
    requires
        escaped_text(s) + seq!['"'] + x == escaped_text(t) + seq!['"'] + y,
    ensures
        s == t,
        x == y,
    decreases s.len(),
{
    let p = escaped_text(s) + seq!['"'] + x;
    let q = escaped_text(t) + seq!['"'] + y;
    if s.len() == 0 && t.len() == 0 {
        assert(s =~= t);
        assert(x =~= p.skip(1));
        assert(y =~= q.skip(1));
    } else if s.len() == 0 {
        assert(p[0] == '"');
        assert(q[0] == escaped_char(t[0])[0]);
    } else if t.len() == 0 {
        assert(q[0] == '"');
        assert(p[0] == escaped_char(s[0])[0]);
    } else {
        let xs = escaped_text(s.drop_first()) + seq!['"'] + x;
        let yt = escaped_text(t.drop_first()) + seq!['"'] + y;
        assert(p =~= escaped_char(s[0]) + xs);
        assert(q =~= escaped_char(t[0]) + yt);
        lemma_escaped_char_reads(s[0], t[0], xs, yt);
        lemma_escaped_text_reads(s.drop_first(), t.drop_first(), x, y);
        assert(s =~= seq![s[0]] + s.drop_first());
        assert(t =~= seq![t[0]] + t.drop_first());
    }
}

/// What a string token is can be read off the text that it starts.
proof fn lemma_string_token_reads(s: Seq<char>, t: Seq<char>, x: Seq<char>, y: Seq<char>)
    requires
        string_token(s) + x == string_token(t) + y,
    ensures
        s == t,
        x == y,
{
    let p = string_token(s) + x;
    let q = string_token(t) + y;
    assert(p.skip(1) =~= escaped_text(s) + seq!['"'] + x);
    assert(q.skip(1) =~= escaped_text(t) + seq!['"'] + y);
    lemma_escaped_text_reads(s, t, x, y);
}

/// Whether a number that is followed by `rest` ends there.
spec fn ends_number(rest: Seq<char>) -> bool {
    rest.len() > 0 ==> !is_number_char(rest[0])
}

/// Whether `t` is made of the characters of numbers.
spec fn number_chars(t: Seq<char>) -> bool {
    forall|k: int| 0 <= k < t.len() ==> is_number_char(#[trigger] t[k])
}

proof fn lemma_number_reads(a: Seq<char>, b: Seq<char>, x: Seq<char>, y: Seq<char>)
    requires
        number_chars(a),
        number_chars(b),
        ends_number(x),
        ends_number(y),
        a + x == b + y,
    ensures
        a == b,
        x == y,
{
    let p = a + x;
    let q = b + y;
    if a.len() < b.len() {
        assert(p[a.len() as int] == x[0]);
        assert(q[a.len() as int] == b[a.len() as int]);
    } else if b.len() < a.len() {
        assert(q[b.len() as int] == y[0]);
        assert(p[b.len() as int] == a[b.len() as int]);
    }
    assert(a =~= p.take(a.len() as int));
    assert(b =~= q.take(b.len() as int));
    assert(x =~= p.skip(a.len() as int));
    assert(y =~= q.skip(b.len() as int));
}

proof fn lemma_int_token(n: int)
    ensures
        int_token(n).len() > 0,
        int_token(n)[0] == '-' || is_digit(int_token(n)[0]),
        forall|k: int|
            0 <= k < int_token(n).len() ==> is_digit(#[trigger] int_token(n)[k]) || int_token(n)[k]
                == '-',
        number_chars(int_token(n)),
        n < 0 <==> int_token(n)[0] == '-',
{
    reveal_strlit("-");
    let magnitude = if n < 0 {
        (-n) as nat
    } else {
        n as nat
    };
    let digits = decimal(magnitude);
    lemma_decimal_round_trip(magnitude);
    assert(is_digit(digits[0]));
    assert forall|k: int| 0 <= k < int_token(n).len() implies is_digit(#[trigger] int_token(n)[k])
        || int_token(n)[k] == '-' by {
        if n < 0 && k > 0 {
            assert(int_token(n)[k] == digits[k - 1]);
        }
    }
}

proof fn lemma_int_token_injective(a: int, b: int)
    requires
        int_token(a) == int_token(b),
    ensures
        a == b,
{
    reveal_strlit("-");
    lemma_int_token(a);
    lemma_int_token(b);
    if a < 0 {
        assert(int_token(a).skip(1) =~= decimal((-a) as nat));
        assert(int_token(b).skip(1) =~= decimal((-b) as nat));
        lemma_decimal_round_trip((-a) as nat);
        lemma_decimal_round_trip((-b) as nat);
    } else {
        lemma_decimal_round_trip(a as nat);
        lemma_decimal_round_trip(b as nat);
    }
}

/// A number's token and no integer's, or the other way round.
proof fn lemma_int_is_no_float(n: int, t: Seq<char>)
    requires
        numbers_hold(Json::Float(t)),
    ensures
        int_token(n) != t,
{
    lemma_int_token(n);
    lemma_float_token(t);
    let k = choose|k: int| 0 <= k < t.len() && !is_digit(#[trigger] t[k]) && t[k] != '-';
    if int_token(n) == t {
        assert(is_digit(int_token(n)[k]) || int_token(n)[k] == '-');
    }
}

/// The first character of a text tells what kind of value it stands for.
spec fn starts_as(v: Json, c: char) -> bool {
    match v {
        Json::Null => c == 'n',
        Json::Bool(b) => if b {
            c == 't'
        } else {
            c == 'f'
        },
        Json::Int(_) => c == '-' || is_digit(c),
        Json::Float(_) => c == '-' || is_digit(c),
        Json::Str(_) => c == '"',
        Json::Arr(_) => c == '[',
        Json::Obj(_) => c == '{',
    }
}

proof fn lemma_compact_starts(v: Json)
    requires
        numbers_hold(v),
    ensures
        compact(v).len() > 0,
        starts_as(v, compact(v)[0]),
{
    reveal_strlit("null");
    reveal_strlit("true");
    reveal_strlit("false");
    reveal_strlit("[");
    reveal_strlit("{");
    match v {
        Json::Int(n) => {
            lemma_int_token(n);
        },
        Json::Float(t) => {
            lemma_float_token(t);
        },
        _ => {},
    }
}

/// The text of the items from `k` on, each behind the comma that it needs.
spec fn items_from(items: Seq<Json>, k: int) -> Seq<char>
    decreases items.len() - k,
{
    if k < 0 || k >= items.len() {
        Seq::empty()
    } else if k == 0 {
        compact(items[0]) + items_from(items, 1)
    } else {
        seq![','] + compact(items[k]) + items_from(items, k + 1)
    }
}

proof fn lemma_items_from(items: Seq<Json>, k: int)
    requires
        0 <= k <= items.len(),
    ensures
        compact_items(items, items.len() as int) == compact_items(items, k) + items_from(items, k),
    decreases items.len() - k,
{
    reveal_strlit(",");
    if k < items.len() {
        lemma_items_from(items, k + 1);
        assert(","@ =~= seq![',']);
        assert(compact_items(items, k + 1) + items_from(items, k + 1) =~= compact_items(items, k)
            + items_from(items, k));
    } else {
        assert(compact_items(items, k) + items_from(items, k) =~= compact_items(items, k));
    }
}

/// The text of an entry.
spec fn entry_text(entry: (Seq<char>, Json)) -> Seq<char> {
    string_token(entry.0) + seq![':'] + compact(entry.1)
}

/// The text of the entries from `k` on, each behind the comma that it needs.
spec fn entries_from(entries: Seq<(Seq<char>, Json)>, k: int) -> Seq<char>
    decreases entries.len() - k,
{
    if k < 0 || k >= entries.len() {
        Seq::empty()
    } else if k == 0 {
        entry_text(entries[0]) + entries_from(entries, 1)
    } else {
        seq![','] + entry_text(entries[k]) + entries_from(entries, k + 1)
    }
}

proof fn lemma_entries_from(entries: Seq<(Seq<char>, Json)>, k: int)
    requires
        0 <= k <= entries.len(),
    ensures
        compact_entries(entries, entries.len() as int) == compact_entries(entries, k)
            + entries_from(entries, k),
    decreases entries.len() - k,
{
    reveal_strlit(",");
    reveal_strlit(":");
    if k < entries.len() {
        lemma_entries_from(entries, k + 1);
        assert(","@ =~= seq![',']);
        assert(":"@ =~= seq![':']);
        assert(compact_entries(entries, k + 1) + entries_from(entries, k + 1) =~= compact_entries(
            entries,
            k,
        ) + entries_from(entries, k));
    } else {
        assert(compact_entries(entries, k) + entries_from(entries, k) =~= compact_entries(
            entries,
            k,
        ));
    }
}

/// What the items from `k` on are can be read off what comes up to the
/// closing bracket.
proof fn lemma_items_read(x: Seq<Json>, y: Seq<Json>, k: int, r: Seq<char>, t: Seq<char>)
    requires
        0 <= k <= x.len(),
        k <= y.len(),
        forall|i: int| #![trigger x[i]] 0 <= i < x.len() ==> numbers_hold(x[i]),
        forall|i: int| #![trigger y[i]] 0 <= i < y.len() ==> numbers_hold(y[i]),
        x.take(k) == y.take(k),
        items_from(x, k) + seq![']'] + r == items_from(y, k) + seq![']'] + t,
    ensures
        x == y,
        r == t,
    decreases x, x.len() - k,
{
    let p = items_from(x, k) + seq![']'] + r;
    let q = items_from(y, k) + seq![']'] + t;
    if k < x.len() {
        lemma_compact_starts(x[k]);
    }
    if k < y.len() {
        lemma_compact_starts(y[k]);
    }
    if k == x.len() && k == y.len() {
        assert(x =~= x.take(k));
        assert(y =~= y.take(k));
        assert(r =~= p.skip(1));
        assert(t =~= q.skip(1));
    } else if k == x.len() {
        assert(p[0] == ']');
        assert(q[0] == if k == 0 {
            compact(y[0])[0]
        } else {
            ','
        });
    } else if k == y.len() {
        assert(q[0] == ']');
        assert(p[0] == if k == 0 {
            compact(x[0])[0]
        } else {
            ','
        });
    } else {
        let rx = items_from(x, k + 1) + seq![']'] + r;
        let ry = items_from(y, k + 1) + seq![']'] + t;
        if k == 0 {
            assert(p =~= compact(x[k]) + rx);
            assert(q =~= compact(y[k]) + ry);
        } else {
            assert(p.skip(1) =~= compact(x[k]) + rx);
            assert(q.skip(1) =~= compact(y[k]) + ry);
        }
        assert(rx[0] == ',' || rx[0] == ']');
        assert(ry[0] == ',' || ry[0] == ']');
        lemma_compact_reads(x[k], y[k], rx, ry);
        assert(x.take(k + 1) =~= x.take(k).push(x[k]));
        assert(y.take(k + 1) =~= y.take(k).push(y[k]));
        lemma_items_read(x, y, k + 1, r, t);
    }
}

/// The comma that the entry at `k` needs, if any.
spec fn comma_at(k: int) -> Seq<char> {
    if k == 0 {
        Seq::empty()
    } else {
        seq![',']
    }
}

/// The text of the entries from `k` on starts with the name of that entry.
proof fn lemma_entries_split(entries: Seq<(Seq<char>, Json)>, k: int, r: Seq<char>)
    requires
        0 <= k < entries.len(),
    ensures
        (entries_from(entries, k) + seq!['}'] + r).skip(comma_at(k).len() as int)
            == string_token(entries[k].0) + (seq![':'] + compact(entries[k].1) + (entries_from(
            entries,
            k + 1,
        ) + seq!['}'] + r)),
        (entries_from(entries, k) + seq!['}'] + r)[0] == if k == 0 {
            '"'
        } else {
            ','
        },
{
    let p = entries_from(entries, k) + seq!['}'] + r;
    let rest = entries_from(entries, k + 1) + seq!['}'] + r;
    let token = string_token(entries[k].0);
    let text = compact(entries[k].1);
    assert(p.skip(comma_at(k).len() as int) =~= token + (seq![':'] + text + rest));
    assert(token[0] == '"');
}

/// A number that the entries from `k` on follow ends there.
proof fn lemma_entries_end(entries: Seq<(Seq<char>, Json)>, k: int, r: Seq<char>)
    requires
        0 < k <= entries.len(),
    ensures
        ends_number(entries_from(entries, k) + seq!['}'] + r),
{
    let p = entries_from(entries, k) + seq!['}'] + r;
    assert(p[0] == ',' || p[0] == '}');
}

/// What the entries from `k` on are can be read off what comes up to the
/// closing brace.
proof fn lemma_entries_read(
    x: Seq<(Seq<char>, Json)>,
    y: Seq<(Seq<char>, Json)>,
    k: int,
    r: Seq<char>,
    t: Seq<char>,
)
    requires
        0 <= k <= x.len(),
        k <= y.len(),
        forall|i: int| #![trigger x[i]] 0 <= i < x.len() ==> numbers_hold(x[i].1),
        forall|i: int| #![trigger y[i]] 0 <= i < y.len() ==> numbers_hold(y[i].1),
        x.take(k) == y.take(k),
        entries_from(x, k) + seq!['}'] + r == entries_from(y, k) + seq!['}'] + t,
    ensures
        x == y,
        r == t,
    decreases x, x.len() - k,
{
    let p = entries_from(x, k) + seq!['}'] + r;
    let q = entries_from(y, k) + seq!['}'] + t;
    if k < x.len() {
        lemma_entries_split(x, k, r);
    } else {
        assert(p =~= seq!['}'] + r);
        assert(p[0] == '}');
    }
    if k < y.len() {
        lemma_entries_split(y, k, t);
    } else {
        assert(q =~= seq!['}'] + t);
        assert(q[0] == '}');
    }
    if k == x.len() {
        assert(k == y.len());
        assert(x =~= x.take(k));
        assert(y =~= y.take(k));
        assert(r =~= p.skip(1));
        assert(t =~= q.skip(1));
    } else {
        assert(k < y.len());
        let rx = entries_from(x, k + 1) + seq!['}'] + r;
        let ry = entries_from(y, k + 1) + seq!['}'] + t;
        let vx = seq![':'] + compact(x[k].1) + rx;
        let vy = seq![':'] + compact(y[k].1) + ry;
        lemma_string_token_reads(x[k].0, y[k].0, vx, vy);
        assert(vx.skip(1) =~= compact(x[k].1) + rx);
        assert(vy.skip(1) =~= compact(y[k].1) + ry);
        lemma_entries_end(x, k + 1, r);
        lemma_entries_end(y, k + 1, t);
        lemma_compact_reads(x[k].1, y[k].1, rx, ry);
        assert(x[k] == y[k]);
        assert(x.take(k + 1) =~= x.take(k).push(x[k]));
        assert(y.take(k + 1) =~= y.take(k).push(y[k]));
        lemma_entries_read(x, y, k + 1, r, t);
    }
}

/// What a value is can be read off the text that its compact form starts.
proof fn lemma_compact_reads(a: Json, b: Json, r: Seq<char>, t: Seq<char>)
    requires
        numbers_hold(a),
        numbers_hold(b),
        ends_number(r),
        ends_number(t),
        compact(a) + r == compact(b) + t,
    ensures
        a == b,
        r == t,
    decreases a,
{
    let p = compact(a) + r;
    let q = compact(b) + t;
    lemma_compact_starts(a);
    lemma_compact_starts(b);
    assert(p[0] == compact(a)[0]);
    assert(q[0] == compact(b)[0]);
    reveal_strlit("[");
    reveal_strlit("]");
    reveal_strlit("{");
    reveal_strlit("}");
    match (a, b) {
        (Json::Int(m), Json::Int(n)) => {
            lemma_int_token(m);
            lemma_int_token(n);
            lemma_number_reads(int_token(m), int_token(n), r, t);
            lemma_int_token_injective(m, n);
        },
        (Json::Int(m), Json::Float(f)) => {
            lemma_int_token(m);
            lemma_float_token(f);
            lemma_number_reads(int_token(m), f, r, t);
            lemma_int_is_no_float(m, f);
        },
        (Json::Float(f), Json::Int(n)) => {
            lemma_int_token(n);
            lemma_float_token(f);
            lemma_number_reads(f, int_token(n), r, t);
            lemma_int_is_no_float(n, f);
        },
        (Json::Float(f), Json::Float(g)) => {
            lemma_float_token(f);
            lemma_float_token(g);
            lemma_number_reads(f, g, r, t);
        },
        (Json::Str(x), Json::Str(y)) => {
            lemma_string_token_reads(x, y, r, t);
        },
        (Json::Arr(x), Json::Arr(y)) => {
            lemma_items_from(x, 0);
            lemma_items_from(y, 0);
            assert(compact_items(x, x.len() as int) =~= items_from(x, 0));
            assert(compact_items(y, y.len() as int) =~= items_from(y, 0));
            assert(p.skip(1) =~= items_from(x, 0) + seq![']'] + r);
            assert(q.skip(1) =~= items_from(y, 0) + seq![']'] + t);
            assert(x.take(0) =~= y.take(0));
            lemma_items_read(x, y, 0, r, t);
        },
        (Json::Obj(x), Json::Obj(y)) => {
            lemma_entries_from(x, 0);
            lemma_entries_from(y, 0);
            assert(compact_entries(x, x.len() as int) =~= entries_from(x, 0));
            assert(compact_entries(y, y.len() as int) =~= entries_from(y, 0));
            assert(p.skip(1) =~= entries_from(x, 0) + seq!['}'] + r);
            assert(q.skip(1) =~= entries_from(y, 0) + seq!['}'] + t);
            assert(x.take(0) =~= y.take(0));
            lemma_entries_read(x, y, 0, r, t);
        },
        _ => {
            assert(a == b);
            assert(r =~= p.skip(compact(a).len() as int));
            assert(t =~= q.skip(compact(b).len() as int));
        },
    }
}

/// Different values have different compact texts.
pub proof fn law_compact_text_tells_values_apart(a: Json, b: Json)
    requires
        numbers_hold(a),
        numbers_hold(b),
    ensures
        compact(a) == compact(b) <==> a == b,
{
    if compact(a) == compact(b) {
        let none = Seq::<char>::empty();
        assert(compact(a) + none =~= compact(b) + none);
        lemma_compact_reads(a, b, none, none);
    }
}

/// Whether the entries of every object in `v` stand in strictly ascending
/// order of their names, by the bytes of their UTF-8 form.
pub open spec fn keys_ascend(v: Json) -> bool
    decreases v,
{
    match v {
        Json::Arr(items) => forall|i: int|
            #![trigger items[i]]
            0 <= i < items.len() ==> keys_ascend(items[i]),
        Json::Obj(entries) => (forall|i: int, j: int|
            #![trigger entries[i], entries[j]]
            0 <= i < j < entries.len() ==> name_leq(entries[i].0, entries[j].0) && entries[i].0
                != entries[j].0) && forall|i: int|
            #![trigger entries[i]]
            0 <= i < entries.len() ==> keys_ascend(entries[i].1),
        _ => true,
    }
}

/// The sorted names of entries with distinct names: each is the name of one
/// entry, and each entry's name is one of them.
pub proof fn lemma_sorted_entries(entries: Seq<(Seq<char>, Json)>)
    requires
        distinct_names(entries),
    ensures
        sorted_names(names(entries)).len() == entries.len(),
        sorted_names(names(entries)).no_duplicates(),
        sorted_by(sorted_names(names(entries)), name_order()),
        forall|j: int|
            #![trigger sorted_names(names(entries))[j]]
            0 <= j < entries.len() ==> has_key(entries, sorted_names(names(entries))[j])
                && 0 <= position(entries, sorted_names(names(entries))[j]) && entries[position(
                entries,
                sorted_names(names(entries))[j],
            )].0 == sorted_names(names(entries))[j],
        forall|i: int|
            #![trigger entries[i]]
            0 <= i < entries.len() ==> sorted_names(names(entries)).contains(entries[i].0)
                && position(entries, entries[i].0) == i,
{
    broadcast use group_to_multiset_ensures;

    let all = names(entries);
    let order = sorted_names(all);
    lemma_names_distinct(entries);
    lemma_name_order_total();
    all.lemma_sort_by_ensures(name_order());
    all.lemma_multiset_has_no_duplicates();
    order.lemma_multiset_has_no_duplicates_conv();
    assert(order.len() == order.to_multiset().len());
    assert(all.len() == all.to_multiset().len());
    assert forall|j: int| #![trigger order[j]] 0 <= j < entries.len() implies has_key(
        entries,
        order[j],
    ) && 0 <= position(entries, order[j]) && entries[position(entries, order[j])].0 == order[j] by {
        let key = order[j];
        assert(order.contains(key));
        assert(all.contains(key));
        let i = choose|i: int| 0 <= i < all.len() && all[i] == key;
        lemma_position(entries, key);
        if !has_key(entries, key) {
            assert(entries[i].0 != key);
        }
    }
    assert forall|i: int| #![trigger entries[i]] 0 <= i < entries.len() implies order.contains(
        entries[i].0,
    ) && position(entries, entries[i].0) == i by {
        assert(all[i] == entries[i].0);
        assert(all.contains(entries[i].0));
        assert(all.to_multiset().count(entries[i].0) > 0);
        assert(order.to_multiset().count(entries[i].0) > 0);
        assert forall|j: int| 0 <= j < i implies (#[trigger] entries[j]).0 != entries[i].0 by {}
        lemma_position_is(entries, entries[i].0, i);
    }
}

/// Canonical text lists the entries of every object in strictly ascending
/// order of their names.
pub proof fn law_canonical_keys_ascend(v: Json)
    requires
        distinct_keys(v),
    ensures
        canonical(v) == compact(sort_keys(v)),
        keys_ascend(sort_keys(v)),
    decreases v,
{
    let sorted = sort_keys(v);
    match v {
        Json::Arr(items) => {
            assert forall|i: int| #![trigger sorted->Arr_0[i]] 0 <= i
                < sorted->Arr_0.len() implies keys_ascend(sorted->Arr_0[i]) by {
                assert(distinct_keys(items[i]));
                law_canonical_keys_ascend(items[i]);
            }
        },
        Json::Obj(entries) => {
            let order = sorted_names(names(entries));
            lemma_sorted_entries(entries);
            assert forall|i: int| #![trigger sorted->Obj_0[i]] 0 <= i
                < sorted->Obj_0.len() implies keys_ascend(sorted->Obj_0[i].1) by {
                let p = position(entries, order[i]);
                assert(distinct_keys(entries[p].1));
                law_canonical_keys_ascend(entries[p].1);
            }
            assert forall|i: int, j: int|
                #![trigger sorted->Obj_0[i], sorted->Obj_0[j]]
                0 <= i < j < sorted->Obj_0.len() implies name_leq(
                sorted->Obj_0[i].0,
                sorted->Obj_0[j].0,
            ) && sorted->Obj_0[i].0 != sorted->Obj_0[j].0 by {
                let leq = name_order();
                assert(leq(order[i], order[j]));
            }
        },
        _ => {},
    }
}

/// Sorting keys changes no number.
proof fn lemma_sorting_keeps_numbers(v: Json)
    requires
        distinct_keys(v),
        numbers_hold(v),
    ensures
        numbers_hold(sort_keys(v)),
    decreases v,
{
    let sorted = sort_keys(v);
    match v {
        Json::Arr(items) => {
            assert forall|i: int| #![trigger sorted->Arr_0[i]] 0 <= i
                < sorted->Arr_0.len() implies numbers_hold(sorted->Arr_0[i]) by {
                assert(distinct_keys(items[i]) && numbers_hold(items[i]));
                lemma_sorting_keeps_numbers(items[i]);
            }
        },
        Json::Obj(entries) => {
            let order = sorted_names(names(entries));
            lemma_sorted_entries(entries);
            assert forall|i: int| #![trigger sorted->Obj_0[i]] 0 <= i
                < sorted->Obj_0.len() implies numbers_hold(sorted->Obj_0[i].1) by {
                let p = position(entries, order[i]);
                assert(distinct_keys(entries[p].1) && numbers_hold(entries[p].1));
                lemma_sorting_keeps_numbers(entries[p].1);
            }
        },
        _ => {},
    }
}

/// Values that are alike once their keys are sorted are equal.
pub proof fn law_sorting_keeps_values_apart(a: Json, b: Json)
    requires
        distinct_keys(a),
        distinct_keys(b),
        sort_keys(a) == sort_keys(b),
    ensures
        same_json(a, b),
    decreases a,
{
    match (a, b) {
        (Json::Arr(x), Json::Arr(y)) => {
            let sx = sort_keys(a)->Arr_0;
            let sy = sort_keys(b)->Arr_0;
            assert(x.len() == sx.len() && y.len() == sy.len());
            assert forall|i: int| #![trigger x[i]] 0 <= i < x.len() implies same_json(
                x[i],
                y[i],
            ) by {
                assert(sx[i] == sort_keys(x[i]) && sy[i] == sort_keys(y[i]));
                assert(distinct_keys(x[i]) && distinct_keys(y[i]));
                law_sorting_keeps_values_apart(x[i], y[i]);
            }
        },
        (Json::Obj(x), Json::Obj(y)) => {
            let sx = sort_keys(a)->Obj_0;
            let sy = sort_keys(b)->Obj_0;
            let nx = sorted_names(names(x));
            let ny = sorted_names(names(y));
            lemma_sorted_entries(x);
            lemma_sorted_entries(y);
            assert(sx.len() == x.len() && sy.len() == y.len());
            assert forall|i: int| #![trigger x[i]] 0 <= i < x.len() implies has_key(y, x[i].0)
                && same_json(x[i].1, lookup(y, x[i].0)->0) by {
                let j = choose|j: int| 0 <= j < nx.len() && nx[j] == x[i].0;
                assert(nx.contains(x[i].0));
                assert(sx[j] == (nx[j], sort_keys(x[i].1)));
                assert(sy[j].0 == ny[j]);
                let q = position(y, ny[j]);
                assert(sy[j] == (ny[j], sort_keys(y[q].1)));
                assert(distinct_keys(x[i].1) && distinct_keys(y[q].1));
                law_sorting_keeps_values_apart(x[i].1, y[q].1);
            }
        },
        _ => {},
    }
}

/// The canonical texts of two values are the same, character by character
/// and byte by byte, exactly where the values are equal; objects are
/// compared whatever order their entries are in.
pub proof fn law_canonical_text_tells_values_apart(a: Json, b: Json)
    requires
        distinct_keys(a),
        distinct_keys(b),
        numbers_hold(a),
        numbers_hold(b),
    ensures
        canonical(a) == canonical(b) <==> same_json(a, b),
        encode_utf8(canonical(a)) == encode_utf8(canonical(b)) <==> same_json(a, b),
{
    encode_utf8_decode_utf8(canonical(a));
    encode_utf8_decode_utf8(canonical(b));
    if same_json(a, b) {
        law_canonical_ignores_key_order(a, b);
    }
    if canonical(a) == canonical(b) {
        lemma_sorting_keeps_numbers(a);
        lemma_sorting_keeps_numbers(b);
        law_compact_text_tells_values_apart(sort_keys(a), sort_keys(b));
        law_sorting_keeps_values_apart(a, b);
    }
}

} // verus!
