//! JSON documents: the executable [`Value`] and its mathematical model
//! [`Json`].

use vstd::prelude::*;
use crate::text::same_text;

verus! {

/// A JSON number. Integers are held exactly; a number with a fraction or
/// an exponent is held as the token that stands for it in JSON text.
#[derive(Clone, Debug, PartialEq, Eq)]
pub enum Number {
    /// A non-negative integer.
    PosInt(u64),
    /// A negative integer.
    NegInt(i64),
    /// Any other number, as its JSON token.
    Float(String),
}

/// A JSON value. An object is a list of entries in document order.
#[derive(Debug)]
pub enum Value {
    Null,
    Bool(bool),
    Number(Number),
    String(String),
    Array(Vec<Value>),
    Object(Vec<(String, Value)>),
}

/// Mathematical model of a JSON value.
pub enum Json {
    Null,
    Bool(bool),
    Int(int),
    Float(Seq<char>),
    Str(Seq<char>),
    Arr(Seq<Json>),
    Obj(Seq<(Seq<char>, Json)>),
}

impl Value {
    /// The model of this value.
    pub open spec fn model(&self) -> Json
        decreases self,
    {
        match *self {
            Value::Null => Json::Null,
            Value::Bool(b) => Json::Bool(b),
            Value::Number(Number::PosInt(n)) => Json::Int(n as int),
            Value::Number(Number::NegInt(n)) => Json::Int(n as int),
            Value::Number(Number::Float(t)) => Json::Float(t@),
            Value::String(s) => Json::Str(s@),
            Value::Array(items) => Json::Arr(
                Seq::new(
                    items@.len(),
                    |i: int|
                        if 0 <= i < items@.len() {
                            items@[i].model()
                        } else {
                            Json::Null
                        },
                ),
            ),
            Value::Object(entries) => Json::Obj(
                Seq::new(
                    entries@.len(),
                    |i: int|
                        if 0 <= i < entries@.len() {
                            (entries@[i].0@, entries@[i].1.model())
                        } else {
                            (Seq::empty(), Json::Null)
                        },
                ),
            ),
        }
    }
}

impl View for Value {
    type V = Json;

    open spec fn view(&self) -> Json {
        self.model()
    }
}

/// The models of a sequence of values.
pub open spec fn models(items: Seq<Value>) -> Seq<Json> {
    Seq::new(items.len(), |i: int| items[i]@)
}

/// The models of a sequence of object entries.
pub open spec fn entry_models(entries: Seq<(String, Value)>) -> Seq<(Seq<char>, Json)> {
    Seq::new(entries.len(), |i: int| (entries[i].0@, entries[i].1@))
}

/// An array's model is the sequence of its items' models.
pub broadcast proof fn array_model(items: Vec<Value>)
    ensures
        #[trigger] Value::Array(items)@ == Json::Arr(models(items@)),
{
    assert(Value::Array(items)@->Arr_0 =~= models(items@));
}

/// An object's model is the sequence of its entries' models.
pub broadcast proof fn object_model(entries: Vec<(String, Value)>)
    ensures
        #[trigger] Value::Object(entries)@ == Json::Obj(entry_models(entries@)),
{
    assert(Value::Object(entries)@->Obj_0 =~= entry_models(entries@));
}

pub broadcast proof fn models_push(items: Seq<Value>, v: Value)
    ensures
        #[trigger] models(items.push(v)) == models(items).push(v@),
{
    assert(models(items.push(v)) =~= models(items).push(v@));
}

pub broadcast proof fn entry_models_push(entries: Seq<(String, Value)>, e: (String, Value))
    ensures
        #[trigger] entry_models(entries.push(e)) == entry_models(entries).push((e.0@, e.1@)),
{
    assert(entry_models(entries.push(e)) =~= entry_models(entries).push((e.0@, e.1@)));
}

pub broadcast group group_value_models {
    array_model,
    object_model,
    models_push,
    entry_models_push,
}

impl Value {
    /// A deep copy of this value.
    pub fn copy(&self) -> (r: Value)
        ensures
            r@ == self@,
        decreases self,
    {
        broadcast use group_value_models;

        match self {
            Value::Null => Value::Null,
            Value::Bool(b) => Value::Bool(*b),
            Value::Number(Number::PosInt(n)) => Value::Number(Number::PosInt(*n)),
            Value::Number(Number::NegInt(n)) => Value::Number(Number::NegInt(*n)),
            Value::Number(Number::Float(t)) => Value::Number(Number::Float(t.clone())),
            Value::String(s) => Value::String(s.clone()),
            Value::Array(items) => {
                let mut out: Vec<Value> = Vec::new();
                let mut i: usize = 0;
                while i < items.len()
                    invariant
                        *self matches Value::Array(its) && its == *items,
                        i <= items@.len(),
                        models(out@) == models(items@).take(i as int),
                    decreases items@.len() - i,
                {
                    broadcast use group_value_models;

                    out.push(items[i].copy());
                    assert(models(items@).take(i + 1) =~= models(items@).take(i as int).push(
                        items@[i as int]@,
                    ));
                    i += 1;
                }
                assert(models(items@).take(i as int) =~= models(items@));
                Value::Array(out)
            },
            Value::Object(entries) => {
                let mut out: Vec<(String, Value)> = Vec::new();
                let mut i: usize = 0;
                while i < entries.len()
                    invariant
                        *self matches Value::Object(es) && es == *entries,
                        i <= entries@.len(),
                        entry_models(out@) == entry_models(entries@).take(i as int),
                    decreases entries@.len() - i,
                {
                    broadcast use group_value_models;

                    let entry = &entries[i];
                    out.push((entry.0.clone(), entry.1.copy()));
                    assert(entry_models(entries@).take(i + 1) =~= entry_models(entries@).take(
                        i as int,
                    ).push((entry.0@, entry.1@)));
                    i += 1;
                }
                assert(entry_models(entries@).take(i as int) =~= entry_models(entries@));
                Value::Object(out)
            },
        }
    }
}

/// Index of the first entry named `key`, or the number of entries.
pub open spec fn position(entries: Seq<(Seq<char>, Json)>, key: Seq<char>) -> int
    decreases entries.len(),
{
    if entries.len() == 0 || entries[0].0 == key {
        0
    } else {
        1 + position(entries.drop_first(), key)
    }
}

/// Whether some entry is named `key`.
pub open spec fn has_key(entries: Seq<(Seq<char>, Json)>, key: Seq<char>) -> bool {
    position(entries, key) < entries.len()
}

/// The value of the entry named `key`.
pub open spec fn lookup(entries: Seq<(Seq<char>, Json)>, key: Seq<char>) -> Option<Json> {
    if has_key(entries, key) {
        Some(entries[position(entries, key)].1)
    } else {
        None
    }
}

/// The entries after `key` is set to `v`: in place where it exists, at
/// the end otherwise.
pub open spec fn put(entries: Seq<(Seq<char>, Json)>, key: Seq<char>, v: Json) -> Seq<
    (Seq<char>, Json),
> {
    if has_key(entries, key) {
        entries.update(position(entries, key), (key, v))
    } else {
        entries.push((key, v))
    }
}

/// The entries without the one named `key`.
pub open spec fn without(entries: Seq<(Seq<char>, Json)>, key: Seq<char>) -> Seq<
    (Seq<char>, Json),
> {
    if has_key(entries, key) {
        entries.remove(position(entries, key))
    } else {
        entries
    }
}

/// Whether no two entries share a name.
pub open spec fn distinct_names(entries: Seq<(Seq<char>, Json)>) -> bool {
    forall|i: int, j: int|
        #![trigger entries[i], entries[j]]
        0 <= i < j < entries.len() ==> entries[i].0 != entries[j].0
}

/// Whether no object inside `v` names an entry twice.
pub open spec fn distinct_keys(v: Json) -> bool
    decreases v,
{
    match v {
        Json::Arr(items) => forall|i: int|
            #![trigger items[i]]
            0 <= i < items.len() ==> distinct_keys(items[i]),
        Json::Obj(entries) => distinct_names(entries) && forall|i: int|
            #![trigger entries[i]]
            0 <= i < entries.len() ==> distinct_keys(entries[i].1),
        _ => true,
    }
}

/// Whether `a` and `b` are the same JSON value: objects are compared by
/// name, whatever order their entries have.
pub open spec fn same_json(a: Json, b: Json) -> bool
    decreases a,
{
    match (a, b) {
        (Json::Arr(x), Json::Arr(y)) => x.len() == y.len() && forall|i: int|
            #![trigger x[i]]
            0 <= i < x.len() ==> same_json(x[i], y[i]),
        (Json::Obj(x), Json::Obj(y)) => x.len() == y.len() && forall|i: int|
            #![trigger x[i]]
            0 <= i < x.len() ==> has_key(y, x[i].0) && same_json(
                x[i].1,
                lookup(y, x[i].0)->0,
            ),
        _ => a == b,
    }
}

/// The first index at which `key` occurs is characterised by its position.
pub proof fn lemma_position(entries: Seq<(Seq<char>, Json)>, key: Seq<char>)
    ensures
        0 <= position(entries, key) <= entries.len(),
        has_key(entries, key) ==> entries[position(entries, key)].0 == key,
        forall|i: int|
            0 <= i < position(entries, key) ==> (#[trigger] entries[i]).0 != key,
    decreases entries.len(),
{
    if entries.len() == 0 || entries[0].0 == key {
    } else {
        let rest = entries.drop_first();
        lemma_position(rest, key);
        assert forall|i: int| 0 <= i < position(entries, key) implies (#[trigger] entries[i]).0
            != key by {
            if i > 0 {
                assert(rest[i - 1] == entries[i]);
            }
        }
    }
}

/// A first match at `i` is the position.
pub proof fn lemma_position_is(entries: Seq<(Seq<char>, Json)>, key: Seq<char>, i: int)
    requires
        0 <= i <= entries.len(),
        i < entries.len() ==> entries[i].0 == key,
        forall|j: int| 0 <= j < i ==> (#[trigger] entries[j]).0 != key,
    ensures
        position(entries, key) == i,
{
    lemma_position(entries, key);
    let p = position(entries, key);
    if p < i {
        assert(entries[p].0 == key);
    } else if i < p {
        assert(entries[i].0 != key);
    }
}

/// Finds the entry named `key`.
pub fn find_key(entries: &Vec<(String, Value)>, key: &str) -> (r: Option<usize>)
    ensures
        r is Some == has_key(entry_models(entries@), key@),
        r matches Some(i) ==> i == position(entry_models(entries@), key@),
{
    let mut i: usize = 0;
    while i < entries.len()
        invariant
            i <= entries@.len(),
            forall|j: int|
                0 <= j < i ==> (#[trigger] entry_models(entries@)[j]).0 != key@,
        decreases entries@.len() - i,
    {
        if same_text(entries[i].0.as_str(), key) {
            proof {
                lemma_position_is(entry_models(entries@), key@, i as int);
            }
            return Some(i);
        }
        i += 1;
    }
    proof {
        lemma_position_is(entry_models(entries@), key@, i as int);
    }
    None
}

impl Clone for Value {
    fn clone(&self) -> (r: Self)
        ensures
            r@ == self@,
    {
        self.copy()
    }
}

impl Number {
    /// The model of this number.
    pub open spec fn model(&self) -> Json {
        match *self {
            Number::PosInt(n) => Json::Int(n as int),
            Number::NegInt(n) => Json::Int(n as int),
            Number::Float(t) => Json::Float(t@),
        }
    }

    /// A copy of this number.
    pub fn copy(&self) -> (r: Number)
        ensures
            r == *self,
    {
        match self {
            Number::PosInt(n) => Number::PosInt(*n),
            Number::NegInt(n) => Number::NegInt(*n),
            Number::Float(t) => Number::Float(t.clone()),
        }
    }

    /// Whether two numbers are the same.
    fn same(&self, other: &Number) -> (r: bool)
        ensures
            r == (self.model() == other.model()),
    {
        match (self, other) {
            (Number::PosInt(a), Number::PosInt(b)) => *a == *b,
            (Number::NegInt(a), Number::NegInt(b)) => *a == *b,
            (Number::PosInt(a), Number::NegInt(b)) => *b >= 0 && *a == *b as u64,
            (Number::NegInt(a), Number::PosInt(b)) => *a >= 0 && *b == *a as u64,
            (Number::Float(a), Number::Float(b)) => same_text(a.as_str(), b.as_str()),
            _ => false,
        }
    }
}

impl Value {
    /// Whether two values are the same, objects compared by name.
    pub fn same(&self, other: &Value) -> (r: bool)
        ensures
            r == same_json(self@, other@),
        decreases self,
    {
        broadcast use group_value_models;

        match (self, other) {
            (Value::Null, Value::Null) => true,
            (Value::Bool(a), Value::Bool(b)) => *a == *b,
            (Value::Number(a), Value::Number(b)) => a.same(b),
            (Value::String(a), Value::String(b)) => same_text(a.as_str(), b.as_str()),
            (Value::Array(a), Value::Array(b)) => {
                if a.len() != b.len() {
                    return false;
                }
                let ghost x = models(a@);
                let ghost y = models(b@);
                let mut i: usize = 0;
                while i < a.len()
                    invariant
                        *self matches Value::Array(its) && its == *a,
                        self@ == Json::Arr(x),
                        other@ == Json::Arr(y),
                        x == models(a@),
                        y == models(b@),
                        a@.len() == b@.len(),
                        i <= a@.len(),
                        forall|j: int| 0 <= j < i ==> same_json(#[trigger] x[j], y[j]),
                    decreases a@.len() - i,
                {
                    if !a[i].same(&b[i]) {
                        assert(!same_json(x[i as int], y[i as int]));
                        return false;
                    }
                    i += 1;
                }
                true
            },
            (Value::Object(a), Value::Object(b)) => {
                if a.len() != b.len() {
                    return false;
                }
                let ghost x = entry_models(a@);
                let ghost y = entry_models(b@);
                let mut i: usize = 0;
                while i < a.len()
                    invariant
                        *self matches Value::Object(es) && es == *a,
                        self@ == Json::Obj(x),
                        other@ == Json::Obj(y),
                        x == entry_models(a@),
                        y == entry_models(b@),
                        a@.len() == b@.len(),
                        i <= a@.len(),
                        forall|j: int|
                            #![trigger x[j]]
                            0 <= j < i ==> has_key(y, x[j].0) && same_json(
                                x[j].1,
                                lookup(y, x[j].0)->0,
                            ),
                    decreases a@.len() - i,
                {
                    let entry = &a[i];
                    assert(x[i as int] == (entry.0@, entry.1@));
                    match find_key(b, entry.0.as_str()) {
                        Some(p) => {
                            proof {
                                lemma_position(y, entry.0@);
                            }
                            if !entry.1.same(&b[p].1) {
                                return false;
                            }
                        },
                        None => {
                            return false;
                        },
                    }
                    i += 1;
                }
                true
            },
            _ => false,
        }
    }
}

impl PartialEq for Value {
    fn eq(&self, other: &Value) -> (r: bool) {
        self.same(other)
    }
}

impl vstd::std_specs::cmp::PartialEqSpecImpl for Value {
    open spec fn obeys_eq_spec() -> bool {
        true
    }

    open spec fn eq_spec(&self, other: &Value) -> bool {
        same_json(self@, other@)
    }
}

} // verus!
