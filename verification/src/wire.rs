//! Building JSON objects field by field.

use vstd::prelude::*;
use crate::json::{
    entry_models, group_value_models, models, has_key, lemma_position, lemma_position_is, lookup,
    position, Json, Number, Value,
};
use crate::text::{opt_text, texts};

verus! {

/// The fields that a present `v` adds to an object: one where it is
/// there, none otherwise.
pub open spec fn opt_field(name: Seq<char>, v: Option<Json>) -> Seq<(Seq<char>, Json)> {
    match v {
        Some(v) => seq![(name, v)],
        None => Seq::empty(),
    }
}

/// The single field `name`.
pub open spec fn field(name: Seq<char>, v: Json) -> Seq<(Seq<char>, Json)> {
    seq![(name, v)]
}

/// An optional integer as JSON.
pub open spec fn opt_int(n: Option<int>) -> Option<Json> {
    match n {
        Some(n) => Some(Json::Int(n)),
        None => None,
    }
}

/// An optional unsigned number as an integer.
pub open spec fn opt_u64(n: Option<u64>) -> Option<int> {
    match n {
        Some(n) => Some(n as int),
        None => None,
    }
}

/// An optional unsigned number as an integer.
pub open spec fn opt_u32(n: Option<u32>) -> Option<int> {
    match n {
        Some(n) => Some(n as int),
        None => None,
    }
}

/// An optional unsigned number as an integer.
pub open spec fn opt_u16(n: Option<u16>) -> Option<int> {
    match n {
        Some(n) => Some(n as int),
        None => None,
    }
}

/// An optional signed number as an integer.
pub open spec fn opt_i64(n: Option<i64>) -> Option<int> {
    match n {
        Some(n) => Some(n as int),
        None => None,
    }
}

/// An optional text as JSON.
pub open spec fn opt_str(s: Option<Seq<char>>) -> Option<Json> {
    match s {
        Some(s) => Some(Json::Str(s)),
        None => None,
    }
}

/// A JSON object under construction.
pub struct Fields {
    pub entries: Vec<(String, Value)>,
}

impl View for Fields {
    type V = Seq<(Seq<char>, Json)>;

    open spec fn view(&self) -> Seq<(Seq<char>, Json)> {
        entry_models(self.entries@)
    }
}

impl Fields {
    /// No fields.
    pub fn new() -> (r: Fields)
        ensures
            r@ == Seq::<(Seq<char>, Json)>::empty(),
    {
        let r = Fields { entries: Vec::new() };
        assert(r@ =~= Seq::empty());
        r
    }

    /// Adds a field.
    pub fn value(&mut self, name: &str, v: Value)
        ensures
            final(self)@ == old(self)@ + field(name@, v@),
    {
        broadcast use group_value_models;

        self.entries.push((name.to_owned(), v));
        assert(self@ =~= old(self)@ + field(name@, v@));
    }

    /// Adds a text field.
    pub fn text(&mut self, name: &str, s: &str)
        ensures
            final(self)@ == old(self)@ + field(name@, Json::Str(s@)),
    {
        self.value(name, Value::String(s.to_owned()));
    }

    /// Adds an integer field.
    pub fn number(&mut self, name: &str, n: u64)
        ensures
            final(self)@ == old(self)@ + field(name@, Json::Int(n as int)),
    {
        self.value(name, Value::Number(Number::PosInt(n)));
    }

    /// Adds a field where there is a value.
    pub fn opt_value(&mut self, name: &str, v: Option<Value>)
        ensures
            final(self)@ == old(self)@ + opt_field(
                name@,
                match v {
                    Some(v) => Some(v@),
                    None => None,
                },
            ),
    {
        match v {
            Some(v) => self.value(name, v),
            None => {
                assert(self@ =~= old(self)@ + Seq::<(Seq<char>, Json)>::empty());
            },
        }
    }

    /// Adds a text field where there is a text.
    pub fn opt_text(&mut self, name: &str, s: &Option<String>)
        ensures
            final(self)@ == old(self)@ + opt_field(name@, opt_str(opt_text(*s))),
    {
        match s {
            Some(s) => self.text(name, s.as_str()),
            None => {
                assert(self@ =~= old(self)@ + Seq::<(Seq<char>, Json)>::empty());
            },
        }
    }

    /// Adds an integer field where there is a number.
    pub fn opt_number(&mut self, name: &str, n: Option<u64>)
        ensures
            final(self)@ == old(self)@ + opt_field(
                name@,
                opt_int(
                    match n {
                        Some(n) => Some(n as int),
                        None => None,
                    },
                ),
            ),
    {
        match n {
            Some(n) => self.number(name, n),
            None => {
                assert(self@ =~= old(self)@ + Seq::<(Seq<char>, Json)>::empty());
            },
        }
    }

    /// The object.
    pub fn object(self) -> (r: Value)
        ensures
            r@ == Json::Obj(self@),
    {
        broadcast use group_value_models;

        Value::Object(self.entries)
    }
}

/// A signed integer as a JSON value.
pub fn int_value(n: i64) -> (r: Value)
    ensures
        r@ == Json::Int(n as int),
{
    if n < 0 {
        Value::Number(Number::NegInt(n))
    } else {
        Value::Number(Number::PosInt(n as u64))
    }
}

/// The JSON array of some texts.
pub open spec fn str_array(parts: Seq<Seq<char>>) -> Json {
    Json::Arr(Seq::new(parts.len(), |i: int| Json::Str(parts[i])))
}

/// The JSON array of some texts.
pub fn text_array(parts: &Vec<String>) -> (r: Value)
    ensures
        r@ == str_array(texts(parts@)),
{
    broadcast use group_value_models;

    let mut items: Vec<Value> = Vec::new();
    let mut i: usize = 0;
    while i < parts.len()
        invariant
            i <= parts@.len(),
            items@.len() == i,
            forall|j: int| 0 <= j < i ==> (#[trigger] items@[j])@ == Json::Str(parts@[j]@),
        decreases parts@.len() - i,
    {
        items.push(Value::String(parts[i].clone()));
        i += 1;
    }
    assert(models(items@) =~= str_array(texts(parts@))->Arr_0);
    Value::Array(items)
}

/// Looking a name up in two lists of entries: the first list that has it
/// wins.
pub proof fn lemma_lookup_concat(
    a: Seq<(Seq<char>, Json)>,
    b: Seq<(Seq<char>, Json)>,
    name: Seq<char>,
)
    ensures
        lookup(a + b, name) == if has_key(a, name) {
            lookup(a, name)
        } else {
            lookup(b, name)
        },
        has_key(a + b, name) == (has_key(a, name) || has_key(b, name)),
{
    lemma_position(a, name);
    lemma_position(b, name);
    let ab = a + b;
    if has_key(a, name) {
        let p = position(a, name);
        assert forall|i: int| 0 <= i < p implies (#[trigger] ab[i]).0 != name by {
            assert(ab[i] == a[i]);
        }
        lemma_position_is(ab, name, p);
    } else {
        let p = a.len() + position(b, name);
        assert forall|i: int| 0 <= i < p implies (#[trigger] ab[i]).0 != name by {
            if i < a.len() {
                assert(ab[i] == a[i]);
            } else {
                assert(ab[i] == b[i - a.len()]);
            }
        }
        lemma_position_is(ab, name, p);
    }
}

/// Looking names up after an optional field was added to others.
pub proof fn lemma_field(
    before: Seq<(Seq<char>, Json)>,
    last: Seq<char>,
    v: Option<Json>,
    name: Seq<char>,
)
    ensures
        name != last ==> lookup(before + opt_field(last, v), name) == lookup(before, name),
        name != last ==> has_key(before + opt_field(last, v), name) == has_key(before, name),
        !has_key(before, last) ==> lookup(before + opt_field(last, v), last) == v,
{
    let added = opt_field(last, v);
    if added.len() > 0 {
        lemma_position_is(added, last, 0);
        if name != last {
            lemma_position_is(added, name, 1);
        }
    } else {
        lemma_position_is(added, last, 0);
        lemma_position_is(added, name, 0);
    }
    lemma_lookup_concat(before, added, name);
    lemma_lookup_concat(before, added, last);
}

} // verus!
