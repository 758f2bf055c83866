//! The `#[zizq(...)]` attributes of a job type.

use vstd::prelude::*;
use vstd::string::*;
use crate::json::Number;
use crate::resources::{BackoffConfig, RetentionConfig};
use crate::json_text::int_token;
use crate::text::{
    all_digits, chars_of, concat3, decimal_value, is_digit, opt_text, read_decimal, same_text,
    texts,
};
use crate::unique_key::UniqueScope;

verus! {

/// The value that an attribute key is given.
#[derive(Debug, Clone, PartialEq, Eq)]
pub enum Literal {
    /// A string literal.
    Text(String),
    /// An integer literal, as its decimal digits.
    Digits(String),
    /// A floating-point literal, as its digits.
    Decimal(String),
    /// A boolean literal.
    Flag(bool),
    /// An array of string literals.
    List(Vec<String>),
    /// No value at all.
    Missing,
    /// Anything else.
    Other,
}

/// Model of a literal.
pub enum Lit {
    Text(Seq<char>),
    Digits(Seq<char>),
    Decimal(Seq<char>),
    Flag(bool),
    List(Seq<Seq<char>>),
    Missing,
    Other,
}

impl View for Literal {
    type V = Lit;

    open spec fn view(&self) -> Lit {
        match *self {
            Literal::Text(s) => Lit::Text(s@),
            Literal::Digits(s) => Lit::Digits(s@),
            Literal::Decimal(s) => Lit::Decimal(s@),
            Literal::Flag(b) => Lit::Flag(b),
            Literal::List(v) => Lit::List(texts(v@)),
            Literal::Missing => Lit::Missing,
            Literal::Other => Lit::Other,
        }
    }
}

/// The text of a literal, or what is wrong with it.
pub open spec fn text_of_lit(lit: Lit) -> Result<Seq<char>, Seq<char>> {
    match lit {
        Lit::Text(s) => Ok(s),
        Lit::Missing => Err("expected `=`"@),
        _ => Err("expected string literal"@),
    }
}

/// The number of a literal up to `max`, or what is wrong with it.
pub open spec fn number_of_lit(lit: Lit, max: int) -> Result<int, Seq<char>> {
    match lit {
        Lit::Digits(s) => if s.len() == 0 || !all_digits(s) {
            Err("invalid digit found in string"@)
        } else if decimal_value(s) <= max {
            Ok(decimal_value(s) as int)
        } else {
            Err("number too large to fit in target type"@)
        },
        Lit::Missing => Err("expected `=`"@),
        _ => Err("expected integer literal"@),
    }
}

/// The digits of a floating-point literal, or what is wrong with it.
pub open spec fn decimal_of_lit(lit: Lit) -> Result<Seq<char>, Seq<char>> {
    match lit {
        Lit::Decimal(s) => Ok(s),
        Lit::Missing => Err("expected `=`"@),
        _ => Err("expected floating point literal"@),
    }
}

/// The truth value of a literal, or what is wrong with it.
pub open spec fn flag_of_lit(lit: Lit) -> Result<bool, Seq<char>> {
    match lit {
        Lit::Flag(b) => Ok(b),
        Lit::Missing => Err("expected `=`"@),
        _ => Err("expected boolean literal"@),
    }
}

/// The texts of a literal, or what is wrong with it.
pub open spec fn list_of_lit(lit: Lit) -> Result<Seq<Seq<char>>, Seq<char>> {
    match lit {
        Lit::List(v) => Ok(v),
        Lit::Missing => Err("expected `=`"@),
        _ => Err("expected an array of string literals"@),
    }
}

/// Whether an executable outcome is that of the model, up to views of the
/// error.
pub open spec fn same_error<A>(r: Result<A, String>, message: Seq<char>) -> bool {
    r matches Err(e) && e@ == message
}

fn read_text(lit: &Literal) -> (r: Result<String, String>)
    ensures
        match text_of_lit(lit@) {
            Ok(s) => r matches Ok(t) && t@ == s,
            Err(m) => same_error(r, m),
        },
{
    match lit {
        Literal::Text(s) => Ok(s.clone()),
        Literal::Missing => Err("expected `=`".to_owned()),
        _ => Err("expected string literal".to_owned()),
    }
}

fn only_digits(chars: &Vec<char>) -> (r: bool)
    ensures
        r == all_digits(chars@),
{
    let mut i: usize = 0;
    while i < chars.len()
        invariant
            i <= chars@.len(),
            forall|j: int| 0 <= j < i ==> is_digit(#[trigger] chars@[j]),
        decreases chars@.len() - i,
    {
        if !('0' <= chars[i] && chars[i] <= '9') {
            assert(!is_digit(chars@[i as int]));
            return false;
        }
        i += 1;
    }
    true
}

fn read_number(lit: &Literal, max: u64) -> (r: Result<u64, String>)
    ensures
        match number_of_lit(lit@, max as int) {
            Ok(n) => r matches Ok(m) && m == n,
            Err(m) => same_error(r, m),
        },
{
    match lit {
        Literal::Digits(s) => {
            let chars = chars_of(s.as_str());
            if chars.len() == 0 || !only_digits(&chars) {
                return Err("invalid digit found in string".to_owned());
            }
            match read_decimal(&chars, max) {
                Some(n) => Ok(n),
                None => Err("number too large to fit in target type".to_owned()),
            }
        },
        Literal::Missing => Err("expected `=`".to_owned()),
        _ => Err("expected integer literal".to_owned()),
    }
}

fn read_float(lit: &Literal) -> (r: Result<String, String>)
    ensures
        match decimal_of_lit(lit@) {
            Ok(s) => r matches Ok(t) && t@ == s,
            Err(m) => same_error(r, m),
        },
{
    match lit {
        Literal::Decimal(s) => Ok(s.clone()),
        Literal::Missing => Err("expected `=`".to_owned()),
        _ => Err("expected floating point literal".to_owned()),
    }
}

fn read_flag(lit: &Literal) -> (r: Result<bool, String>)
    ensures
        match flag_of_lit(lit@) {
            Ok(b) => r matches Ok(c) && c == b,
            Err(m) => same_error(r, m),
        },
{
    match lit {
        Literal::Flag(b) => Ok(*b),
        Literal::Missing => Err("expected `=`".to_owned()),
        _ => Err("expected boolean literal".to_owned()),
    }
}

fn copy_texts(list: &Vec<String>) -> (r: Vec<String>)
    ensures
        texts(r@) == texts(list@),
{
    let mut out: Vec<String> = Vec::new();
    let mut i: usize = 0;
    while i < list.len()
        invariant
            i <= list@.len(),
            out@ == list@.take(i as int),
        decreases list@.len() - i,
    {
        out.push(list[i].clone());
        assert(out@ =~= list@.take(i + 1));
        i += 1;
    }
    assert(list@.take(i as int) =~= list@);
    out
}

fn read_list(lit: &Literal) -> (r: Result<Vec<String>, String>)
    ensures
        match list_of_lit(lit@) {
            Ok(v) => r matches Ok(w) && texts(w@) == v,
            Err(m) => same_error(r, m),
        },
{
    match lit {
        Literal::List(v) => Ok(copy_texts(v)),
        Literal::Missing => Err("expected `=`".to_owned()),
        _ => Err("expected an array of string literals".to_owned()),
    }
}

/// What is wrong with a key that is given twice.
pub open spec fn duplicate(key: Seq<char>) -> Seq<char> {
    "duplicate `"@ + key + "` attribute"@
}

/// What is wrong with a key that `group` does not have.
pub open spec fn unknown(group: Seq<char>, key: Seq<char>) -> Seq<char> {
    "unknown `"@ + group + "` attribute `"@ + key + "`"@
}

fn duplicate_text(key: &str) -> (r: String)
    ensures
        r@ == duplicate(key@),
{
    concat3("duplicate `", key, "` attribute")
}

fn unknown_text(group: &str, key: &str) -> (r: String)
    ensures
        r@ == unknown(group@, key@),
{
    let mut out = concat3("unknown `", group, "` attribute `");
    out.append(key);
    out.append("`");
    out
}

/// A key and its value inside a group such as `backoff(...)`.
#[derive(Debug, Clone, PartialEq, Eq)]
pub struct Inner {
    pub key: String,
    pub value: Literal,
}

/// The models of the members of a group.
pub open spec fn inner_models(list: Seq<Inner>) -> Seq<(Seq<char>, Lit)> {
    Seq::new(list.len(), |i: int| (list[i].key@, list[i].value@))
}

/// What a top-level key is given: a literal, or a group in parentheses.
#[derive(Debug, Clone, PartialEq, Eq)]
pub enum MetaValue {
    Plain(Literal),
    Group(Vec<Inner>),
}

/// Model of a value.
pub enum Given {
    Plain(Lit),
    Group(Seq<(Seq<char>, Lit)>),
}

impl View for MetaValue {
    type V = Given;

    open spec fn view(&self) -> Given {
        match *self {
            MetaValue::Plain(lit) => Given::Plain(lit@),
            MetaValue::Group(list) => Given::Group(inner_models(list@)),
        }
    }
}

/// One item of an attribute.
#[derive(Debug, Clone, PartialEq, Eq)]
pub enum Item {
    /// A key and what it is given.
    Meta { key: String, value: MetaValue },
    /// A place where the syntax breaks, and how.
    Malformed(String),
}

/// Model of an item.
pub enum ItemModel {
    Meta(Seq<char>, Given),
    Malformed(Seq<char>),
}

impl View for Item {
    type V = ItemModel;

    open spec fn view(&self) -> ItemModel {
        match *self {
            Item::Meta { key, value } => ItemModel::Meta(key@, value@),
            Item::Malformed(message) => ItemModel::Malformed(message@),
        }
    }
}

/// An attribute of an item, such as `#[zizq(...)]` or `#[serde(...)]`.
#[derive(Debug, Clone, PartialEq, Eq)]
pub struct Attribute {
    pub path: String,
    pub items: Vec<Item>,
}

/// The models of some items.
pub open spec fn item_models(list: Seq<Item>) -> Seq<ItemModel> {
    Seq::new(list.len(), |i: int| list[i]@)
}

/// The items of the first `n` attributes that are ours, one after the
/// other.
pub open spec fn own_items(attributes: Seq<Attribute>, n: int) -> Seq<ItemModel>
    decreases n,
{
    if n <= 0 {
        Seq::empty()
    } else {
        let before = own_items(attributes, n - 1);
        if attributes[n - 1].path@ == "zizq"@ {
            before + item_models(attributes[n - 1].items@)
        } else {
            before
        }
    }
}

/// A plain value; a group in its place is no value.
pub open spec fn plain_of(given: Given) -> Lit {
    match given {
        Given::Plain(lit) => lit,
        Given::Group(_) => Lit::Missing,
    }
}

/// The members of a group; a plain value in its place is an error.
pub open spec fn group_of(given: Given) -> Result<Seq<(Seq<char>, Lit)>, Seq<char>> {
    match given {
        Given::Group(list) => Ok(list),
        Given::Plain(_) => Err("expected parentheses"@),
    }
}

/// The parts of a backoff that were given so far.
pub struct BackoffParts {
    pub base_ms: Option<u64>,
    pub exponent: Option<Seq<char>>,
    pub jitter_ms: Option<u64>,
}

/// A backoff after one more member.
pub open spec fn backoff_step(b: BackoffParts, item: (Seq<char>, Lit)) -> Result<
    BackoffParts,
    Seq<char>,
> {
    let (key, lit) = item;
    if key == "base_ms"@ {
        if b.base_ms is Some {
            Err(duplicate(key))
        } else {
            match number_of_lit(lit, u64::MAX as int) {
                Ok(n) => Ok(BackoffParts { base_ms: Some(n as u64), ..b }),
                Err(m) => Err(m),
            }
        }
    } else if key == "exponent"@ {
        if b.exponent is Some {
            Err(duplicate(key))
        } else {
            match decimal_of_lit(lit) {
                Ok(s) => Ok(BackoffParts { exponent: Some(s), ..b }),
                Err(m) => Err(m),
            }
        }
    } else if key == "jitter_ms"@ {
        if b.jitter_ms is Some {
            Err(duplicate(key))
        } else {
            match number_of_lit(lit, u64::MAX as int) {
                Ok(n) => Ok(BackoffParts { jitter_ms: Some(n as u64), ..b }),
                Err(m) => Err(m),
            }
        }
    } else {
        Err(unknown("backoff"@, key))
    }
}

/// A backoff after the first `n` members.
pub open spec fn backoff_parts(items: Seq<(Seq<char>, Lit)>, n: int) -> Result<
    BackoffParts,
    Seq<char>,
>
    decreases n,
{
    if n <= 0 {
        Ok(BackoffParts { base_ms: None, exponent: None, jitter_ms: None })
    } else {
        match backoff_parts(items, n - 1) {
            Ok(b) => backoff_step(b, items[n - 1]),
            Err(m) => Err(m),
        }
    }
}

/// The backoff that a group stands for: base, exponent and jitter, all
/// three of them.
pub open spec fn backoff_group(items: Seq<(Seq<char>, Lit)>) -> Result<
    (u64, Seq<char>, u64),
    Seq<char>,
> {
    match backoff_parts(items, items.len() as int) {
        Ok(b) => if b.base_ms is Some && b.exponent is Some && b.jitter_ms is Some {
            Ok((b.base_ms->0, b.exponent->0, b.jitter_ms->0))
        } else {
            Err("`backoff` requires `base_ms`, `exponent` and `jitter_ms`"@)
        },
        Err(m) => Err(m),
    }
}

fn read_backoff_group(items: &Vec<Inner>) -> (r: Result<BackoffConfig, String>)
    ensures
        match backoff_group(inner_models(items@)) {
            Ok((base_ms, exponent, jitter_ms)) => r matches Ok(b) && b.base_ms == base_ms
                && b.jitter_ms == jitter_ms && (b.exponent matches Number::Float(t) && t@
                == exponent),
            Err(m) => same_error(r, m),
        },
{
    let ghost all = inner_models(items@);
    let mut base_ms: Option<u64> = None;
    let mut exponent: Option<String> = None;
    let mut jitter_ms: Option<u64> = None;
    let mut i: usize = 0;
    while i < items.len()
        invariant
            all == inner_models(items@),
            i <= items@.len(),
            backoff_parts(all, i as int) == Ok::<BackoffParts, Seq<char>>(
                BackoffParts { base_ms, exponent: opt_text(exponent), jitter_ms },
            ),
        decreases items@.len() - i,
    {
        let item = &items[i];
        assert(all[i as int] == (item.key@, item.value@));
        let key = item.key.as_str();
        let mut failed: Option<String> = None;
        if same_text(key, "base_ms") {
            if base_ms.is_some() {
                failed = Some(duplicate_text(key));
            } else {
                match read_number(&item.value, u64::MAX) {
                    Ok(n) => {
                        base_ms = Some(n);
                    },
                    Err(m) => {
                        failed = Some(m);
                    },
                }
            }
        } else if same_text(key, "exponent") {
            if exponent.is_some() {
                failed = Some(duplicate_text(key));
            } else {
                match read_float(&item.value) {
                    Ok(s) => {
                        exponent = Some(s);
                    },
                    Err(m) => {
                        failed = Some(m);
                    },
                }
            }
        } else if same_text(key, "jitter_ms") {
            if jitter_ms.is_some() {
                failed = Some(duplicate_text(key));
            } else {
                match read_number(&item.value, u64::MAX) {
                    Ok(n) => {
                        jitter_ms = Some(n);
                    },
                    Err(m) => {
                        failed = Some(m);
                    },
                }
            }
        } else {
            failed = Some(unknown_text("backoff", key));
        }
        if let Some(m) = failed {
            proof {
                assert(backoff_parts(all, i + 1) == Err::<BackoffParts, Seq<char>>(m@));
                lemma_backoff_stays_wrong(all, i + 1, m@);
            }
            return Err(m);
        }
        i += 1;
    }
    match (base_ms, exponent, jitter_ms) {
        (Some(base_ms), Some(exponent), Some(jitter_ms)) => Ok(
            BackoffConfig { base_ms, exponent: Number::Float(exponent), jitter_ms },
        ),
        _ => Err("`backoff` requires `base_ms`, `exponent` and `jitter_ms`".to_owned()),
    }
}

proof fn lemma_backoff_stays_wrong(items: Seq<(Seq<char>, Lit)>, n: int, m: Seq<char>)
    requires
        0 <= n <= items.len(),
        backoff_parts(items, n) == Err::<BackoffParts, Seq<char>>(m),
    ensures
        backoff_parts(items, items.len() as int) == Err::<BackoffParts, Seq<char>>(m),
    decreases items.len() - n,
{
    if n < items.len() {
        lemma_backoff_stays_wrong(items, n + 1, m);
    }
}

/// A retention after one more member.
pub open spec fn retention_step(r: RetentionConfig, item: (Seq<char>, Lit)) -> Result<
    RetentionConfig,
    Seq<char>,
> {
    let (key, lit) = item;
    if key == "completed_ms"@ {
        if r.completed_ms is Some {
            Err(duplicate(key))
        } else {
            match number_of_lit(lit, u64::MAX as int) {
                Ok(n) => Ok(RetentionConfig { completed_ms: Some(n as u64), ..r }),
                Err(m) => Err(m),
            }
        }
    } else if key == "dead_ms"@ {
        if r.dead_ms is Some {
            Err(duplicate(key))
        } else {
            match number_of_lit(lit, u64::MAX as int) {
                Ok(n) => Ok(RetentionConfig { dead_ms: Some(n as u64), ..r }),
                Err(m) => Err(m),
            }
        }
    } else {
        Err(unknown("retention"@, key))
    }
}

/// A retention after the first `n` members.
pub open spec fn retention_parts(items: Seq<(Seq<char>, Lit)>, n: int) -> Result<
    RetentionConfig,
    Seq<char>,
>
    decreases n,
{
    if n <= 0 {
        Ok(RetentionConfig { completed_ms: None, dead_ms: None })
    } else {
        match retention_parts(items, n - 1) {
            Ok(r) => retention_step(r, items[n - 1]),
            Err(m) => Err(m),
        }
    }
}

/// The retention that a group stands for: one member at least.
pub open spec fn retention_group(items: Seq<(Seq<char>, Lit)>) -> Result<
    RetentionConfig,
    Seq<char>,
> {
    match retention_parts(items, items.len() as int) {
        Ok(r) => if r.completed_ms is Some || r.dead_ms is Some {
            Ok(r)
        } else {
            Err("`retention` requires `completed_ms` or `dead_ms`"@)
        },
        Err(m) => Err(m),
    }
}

fn read_retention_group(items: &Vec<Inner>) -> (r: Result<RetentionConfig, String>)
    ensures
        match retention_group(inner_models(items@)) {
            Ok(c) => r matches Ok(d) && d == c,
            Err(m) => same_error(r, m),
        },
{
    let ghost all = inner_models(items@);
    let mut out = RetentionConfig { completed_ms: None, dead_ms: None };
    let mut i: usize = 0;
    while i < items.len()
        invariant
            all == inner_models(items@),
            i <= items@.len(),
            retention_parts(all, i as int) == Ok::<RetentionConfig, Seq<char>>(out),
        decreases items@.len() - i,
    {
        let item = &items[i];
        assert(all[i as int] == (item.key@, item.value@));
        let key = item.key.as_str();
        let mut failed: Option<String> = None;
        if same_text(key, "completed_ms") {
            if out.completed_ms.is_some() {
                failed = Some(duplicate_text(key));
            } else {
                match read_number(&item.value, u64::MAX) {
                    Ok(n) => {
                        out = RetentionConfig { completed_ms: Some(n), ..out };
                    },
                    Err(m) => {
                        failed = Some(m);
                    },
                }
            }
        } else if same_text(key, "dead_ms") {
            if out.dead_ms.is_some() {
                failed = Some(duplicate_text(key));
            } else {
                match read_number(&item.value, u64::MAX) {
                    Ok(n) => {
                        out = RetentionConfig { dead_ms: Some(n), ..out };
                    },
                    Err(m) => {
                        failed = Some(m);
                    },
                }
            }
        } else {
            failed = Some(unknown_text("retention", key));
        }
        if let Some(m) = failed {
            proof {
                assert(retention_parts(all, i + 1) == Err::<RetentionConfig, Seq<char>>(m@));
                lemma_retention_stays_wrong(all, i + 1, m@);
            }
            return Err(m);
        }
        i += 1;
    }
    if out.completed_ms.is_some() || out.dead_ms.is_some() {
        Ok(out)
    } else {
        Err("`retention` requires `completed_ms` or `dead_ms`".to_owned())
    }
}

proof fn lemma_retention_stays_wrong(items: Seq<(Seq<char>, Lit)>, n: int, m: Seq<char>)
    requires
        0 <= n <= items.len(),
        retention_parts(items, n) == Err::<RetentionConfig, Seq<char>>(m),
    ensures
        retention_parts(items, items.len() as int) == Err::<RetentionConfig, Seq<char>>(m),
    decreases items.len() - n,
{
    if n < items.len() {
        lemma_retention_stays_wrong(items, n + 1, m);
    }
}

/// Which part of a payload a uniqueness key hashes.
#[derive(Debug, Clone, PartialEq, Eq)]
pub enum UniqueSelection {
    /// Only the sub-values at these paths.
    Only(Vec<String>),
    /// Everything but the sub-values at these paths.
    Except(Vec<String>),
}

/// `unique(...)`: how the uniqueness key of a job type is derived.
#[derive(Debug, Clone, PartialEq, Eq)]
pub struct UniqueAttr {
    /// The whole payload where it is not set.
    pub selection: Option<UniqueSelection>,
    pub scope: Option<UniqueScope>,
    /// Whether the name of the job type goes in front; it does where this
    /// is not set.
    pub prefix: Option<bool>,
}

/// Model of a selection.
pub enum Selected {
    Only(Seq<Seq<char>>),
    Except(Seq<Seq<char>>),
}

/// Model of a uniqueness attribute.
pub struct UniqueModel {
    pub selection: Option<Selected>,
    pub scope: Option<UniqueScope>,
    pub prefix: Option<bool>,
}

impl View for UniqueAttr {
    type V = UniqueModel;

    open spec fn view(&self) -> UniqueModel {
        UniqueModel {
            selection: match self.selection {
                Some(UniqueSelection::Only(v)) => Some(Selected::Only(texts(v@))),
                Some(UniqueSelection::Except(v)) => Some(Selected::Except(texts(v@))),
                None => None,
            },
            scope: self.scope,
            prefix: self.prefix,
        }
    }
}

/// The scope that a text names, or what is wrong with it.
pub open spec fn scope_of_text(s: Seq<char>) -> Result<UniqueScope, Seq<char>> {
    if s == "queued"@ {
        Ok(UniqueScope::Queued)
    } else if s == "active"@ {
        Ok(UniqueScope::Active)
    } else if s == "exists"@ {
        Ok(UniqueScope::Exists)
    } else {
        Err("unknown scope `"@ + s + "`"@)
    }
}

fn read_scope(s: &str) -> (r: Result<UniqueScope, String>)
    ensures
        match scope_of_text(s@) {
            Ok(scope) => r matches Ok(t) && t == scope,
            Err(m) => same_error(r, m),
        },
{
    if same_text(s, "queued") {
        Ok(UniqueScope::Queued)
    } else if same_text(s, "active") {
        Ok(UniqueScope::Active)
    } else if same_text(s, "exists") {
        Ok(UniqueScope::Exists)
    } else {
        Err(concat3("unknown scope `", s, "`"))
    }
}

/// A uniqueness attribute after one more member.
pub open spec fn unique_step(u: UniqueModel, item: (Seq<char>, Lit)) -> Result<
    UniqueModel,
    Seq<char>,
> {
    let (key, lit) = item;
    if key == "only"@ {
        match u.selection {
            Some(Selected::Only(_)) => Err(duplicate(key)),
            Some(Selected::Except(_)) => Err("`only` and `except` are mutually exclusive"@),
            None => match list_of_lit(lit) {
                Ok(v) => Ok(UniqueModel { selection: Some(Selected::Only(v)), ..u }),
                Err(m) => Err(m),
            },
        }
    } else if key == "except"@ {
        match u.selection {
            Some(Selected::Except(_)) => Err(duplicate(key)),
            Some(Selected::Only(_)) => Err("`only` and `except` are mutually exclusive"@),
            None => match list_of_lit(lit) {
                Ok(v) => Ok(UniqueModel { selection: Some(Selected::Except(v)), ..u }),
                Err(m) => Err(m),
            },
        }
    } else if key == "scope"@ {
        if u.scope is Some {
            Err(duplicate(key))
        } else {
            match text_of_lit(lit) {
                Ok(s) => match scope_of_text(s) {
                    Ok(scope) => Ok(UniqueModel { scope: Some(scope), ..u }),
                    Err(m) => Err(m),
                },
                Err(m) => Err(m),
            }
        }
    } else if key == "prefix"@ {
        if u.prefix is Some {
            Err(duplicate(key))
        } else {
            match flag_of_lit(lit) {
                Ok(b) => Ok(UniqueModel { prefix: Some(b), ..u }),
                Err(m) => Err(m),
            }
        }
    } else {
        Err(unknown("unique"@, key))
    }
}

/// A uniqueness attribute after the first `n` members.
pub open spec fn unique_group(items: Seq<(Seq<char>, Lit)>, n: int) -> Result<
    UniqueModel,
    Seq<char>,
>
    decreases n,
{
    if n <= 0 {
        Ok(UniqueModel { selection: None, scope: None, prefix: None })
    } else {
        match unique_group(items, n - 1) {
            Ok(u) => unique_step(u, items[n - 1]),
            Err(m) => Err(m),
        }
    }
}

proof fn lemma_unique_stays_wrong(items: Seq<(Seq<char>, Lit)>, n: int, m: Seq<char>)
    requires
        0 <= n <= items.len(),
        unique_group(items, n) == Err::<UniqueModel, Seq<char>>(m),
    ensures
        unique_group(items, items.len() as int) == Err::<UniqueModel, Seq<char>>(m),
    decreases items.len() - n,
{
    if n < items.len() {
        lemma_unique_stays_wrong(items, n + 1, m);
    }
}

/// Takes one more member into a uniqueness attribute.
fn put_unique(out: UniqueAttr, item: &Inner) -> (r: Result<UniqueAttr, String>)
    ensures
        match unique_step(out@, (item.key@, item.value@)) {
            Ok(u) => r matches Ok(v) && v@ == u,
            Err(m) => same_error(r, m),
        },
{
    let key = item.key.as_str();
    if same_text(key, "only") {
        match &out.selection {
            Some(UniqueSelection::Only(_)) => {
                return Err(duplicate_text(key));
            },
            Some(UniqueSelection::Except(_)) => {
                return Err("`only` and `except` are mutually exclusive".to_owned());
            },
            None => {},
        }
        match read_list(&item.value) {
            Ok(v) => Ok(UniqueAttr { selection: Some(UniqueSelection::Only(v)), ..out }),
            Err(m) => Err(m),
        }
    } else if same_text(key, "except") {
        match &out.selection {
            Some(UniqueSelection::Except(_)) => {
                return Err(duplicate_text(key));
            },
            Some(UniqueSelection::Only(_)) => {
                return Err("`only` and `except` are mutually exclusive".to_owned());
            },
            None => {},
        }
        match read_list(&item.value) {
            Ok(v) => Ok(UniqueAttr { selection: Some(UniqueSelection::Except(v)), ..out }),
            Err(m) => Err(m),
        }
    } else if same_text(key, "scope") {
        if out.scope.is_some() {
            return Err(duplicate_text(key));
        }
        match read_text(&item.value) {
            Ok(s) => match read_scope(s.as_str()) {
                Ok(scope) => Ok(UniqueAttr { scope: Some(scope), ..out }),
                Err(m) => Err(m),
            },
            Err(m) => Err(m),
        }
    } else if same_text(key, "prefix") {
        if out.prefix.is_some() {
            return Err(duplicate_text(key));
        }
        match read_flag(&item.value) {
            Ok(b) => Ok(UniqueAttr { prefix: Some(b), ..out }),
            Err(m) => Err(m),
        }
    } else {
        Err(unknown_text("unique", key))
    }
}

fn read_unique_group(items: &Vec<Inner>) -> (r: Result<UniqueAttr, String>)
    ensures
        match unique_group(inner_models(items@), items@.len() as int) {
            Ok(u) => r matches Ok(v) && v@ == u,
            Err(m) => same_error(r, m),
        },
{
    let ghost all = inner_models(items@);
    let mut out = UniqueAttr { selection: None, scope: None, prefix: None };
    let mut i: usize = 0;
    while i < items.len()
        invariant
            all == inner_models(items@),
            i <= items@.len(),
            unique_group(all, i as int) == Ok::<UniqueModel, Seq<char>>(out@),
        decreases items@.len() - i,
    {
        assert(all[i as int] == (items@[i as int].key@, items@[i as int].value@));
        match put_unique(out, &items[i]) {
            Ok(next) => {
                out = next;
            },
            Err(m) => {
                proof {
                    assert(unique_group(all, i + 1) == Err::<UniqueModel, Seq<char>>(m@));
                    lemma_unique_stays_wrong(all, i + 1, m@);
                }
                return Err(m);
            },
        }
        i += 1;
    }
    Ok(out)
}

/// The attributes of a job type.
#[derive(Debug, Clone, PartialEq, Eq)]
pub struct ZizqAttrs {
    /// Name of the job type; the name of the Rust type where it is not
    /// set.
    pub name: Option<String>,
    pub queue: Option<String>,
    pub priority: Option<u16>,
    pub retry_limit: Option<u32>,
    pub backoff: Option<BackoffConfig>,
    pub retention: Option<RetentionConfig>,
    pub unique: Option<UniqueAttr>,
}

/// Model of the attributes.
pub struct AttrsModel {
    pub name: Option<Seq<char>>,
    pub queue: Option<Seq<char>>,
    pub priority: Option<u16>,
    pub retry_limit: Option<u32>,
    pub backoff: Option<(u64, Seq<char>, u64)>,
    pub retention: Option<RetentionConfig>,
    pub unique: Option<UniqueModel>,
}

/// The token of a number.
pub open spec fn number_text(n: Number) -> Seq<char> {
    match n {
        Number::PosInt(n) => int_token(n as int),
        Number::NegInt(n) => int_token(n as int),
        Number::Float(t) => t@,
    }
}

impl View for ZizqAttrs {
    type V = AttrsModel;

    open spec fn view(&self) -> AttrsModel {
        AttrsModel {
            name: opt_text(self.name),
            queue: opt_text(self.queue),
            priority: self.priority,
            retry_limit: self.retry_limit,
            backoff: match self.backoff {
                Some(b) => Some((b.base_ms, number_text(b.exponent), b.jitter_ms)),
                None => None,
            },
            retention: self.retention,
            unique: match self.unique {
                Some(u) => Some(u@),
                None => None,
            },
        }
    }
}

impl AttrsModel {
    /// No attributes.
    pub open spec fn none() -> AttrsModel {
        AttrsModel {
            name: None,
            queue: None,
            priority: None,
            retry_limit: None,
            backoff: None,
            retention: None,
            unique: None,
        }
    }
}

/// The uniqueness attribute that a value stands for; without a value it is
/// the bare one.
pub open spec fn unique_of(given: Given) -> Result<UniqueModel, Seq<char>> {
    match given {
        Given::Group(items) => unique_group(items, items.len() as int),
        Given::Plain(Lit::Missing) => Ok(
            UniqueModel { selection: None, scope: None, prefix: None },
        ),
        Given::Plain(_) => Err("expected parentheses"@),
    }
}

/// The attributes after one more key.
pub open spec fn attr_step(a: AttrsModel, key: Seq<char>, given: Given) -> Result<
    AttrsModel,
    Seq<char>,
> {
    if key == "name"@ {
        if a.name is Some {
            Err(duplicate(key))
        } else {
            match text_of_lit(plain_of(given)) {
                Ok(s) => Ok(AttrsModel { name: Some(s), ..a }),
                Err(m) => Err(m),
            }
        }
    } else if key == "queue"@ {
        if a.queue is Some {
            Err(duplicate(key))
        } else {
            match text_of_lit(plain_of(given)) {
                Ok(s) => Ok(AttrsModel { queue: Some(s), ..a }),
                Err(m) => Err(m),
            }
        }
    } else if key == "priority"@ {
        if a.priority is Some {
            Err(duplicate(key))
        } else {
            match number_of_lit(plain_of(given), u16::MAX as int) {
                Ok(n) => Ok(AttrsModel { priority: Some(n as u16), ..a }),
                Err(m) => Err(m),
            }
        }
    } else if key == "retry_limit"@ {
        if a.retry_limit is Some {
            Err(duplicate(key))
        } else {
            match number_of_lit(plain_of(given), u32::MAX as int) {
                Ok(n) => Ok(AttrsModel { retry_limit: Some(n as u32), ..a }),
                Err(m) => Err(m),
            }
        }
    } else if key == "backoff"@ {
        if a.backoff is Some {
            Err(duplicate(key))
        } else {
            match group_of(given) {
                Ok(items) => match backoff_group(items) {
                    Ok(b) => Ok(AttrsModel { backoff: Some(b), ..a }),
                    Err(m) => Err(m),
                },
                Err(m) => Err(m),
            }
        }
    } else if key == "retention"@ {
        if a.retention is Some {
            Err(duplicate(key))
        } else {
            match group_of(given) {
                Ok(items) => match retention_group(items) {
                    Ok(r) => Ok(AttrsModel { retention: Some(r), ..a }),
                    Err(m) => Err(m),
                },
                Err(m) => Err(m),
            }
        }
    } else if key == "unique"@ {
        if a.unique is Some {
            Err(duplicate(key))
        } else {
            match unique_of(given) {
                Ok(u) => Ok(AttrsModel { unique: Some(u), ..a }),
                Err(m) => Err(m),
            }
        }
    } else {
        Err(unknown("zizq"@, key))
    }
}

/// The attributes after the first `n` items.
pub open spec fn attrs_of(items: Seq<ItemModel>, n: int) -> Result<AttrsModel, Seq<char>>
    decreases n,
{
    if n <= 0 {
        Ok(AttrsModel::none())
    } else {
        match attrs_of(items, n - 1) {
            Ok(a) => match items[n - 1] {
                ItemModel::Meta(key, given) => attr_step(a, key, given),
                ItemModel::Malformed(m) => Err(m),
            },
            Err(m) => Err(m),
        }
    }
}

/// Once an item is wrong, later items do not mend it.
proof fn lemma_attrs_stay_wrong(items: Seq<ItemModel>, n: int, end: int, m: Seq<char>)
    requires
        0 <= n <= end,
        attrs_of(items, n) == Err::<AttrsModel, Seq<char>>(m),
    ensures
        attrs_of(items, end) == Err::<AttrsModel, Seq<char>>(m),
    decreases end - n,
{
    if n < end {
        lemma_attrs_stay_wrong(items, n + 1, end, m);
    }
}

fn plain_value(value: &MetaValue) -> (r: Literal)
    ensures
        r@ == plain_of(value@),
{
    match value {
        MetaValue::Plain(Literal::Text(s)) => Literal::Text(s.clone()),
        MetaValue::Plain(Literal::Digits(s)) => Literal::Digits(s.clone()),
        MetaValue::Plain(Literal::Decimal(s)) => Literal::Decimal(s.clone()),
        MetaValue::Plain(Literal::Flag(b)) => Literal::Flag(*b),
        MetaValue::Plain(Literal::List(v)) => Literal::List(copy_texts(v)),
        MetaValue::Plain(Literal::Missing) => Literal::Missing,
        MetaValue::Plain(Literal::Other) => Literal::Other,
        MetaValue::Group(_) => Literal::Missing,
    }
}

/// Takes one more key into the attributes.
fn put_attr(out: ZizqAttrs, key: &str, value: &MetaValue) -> (r: Result<ZizqAttrs, String>)
    ensures
        match attr_step(out@, key@, value@) {
            Ok(a) => r matches Ok(b) && b@ == a,
            Err(m) => same_error(r, m),
        },
{
    if same_text(key, "name") {
        if out.name.is_some() {
            return Err(duplicate_text(key));
        }
        match read_text(&plain_value(value)) {
            Ok(s) => Ok(ZizqAttrs { name: Some(s), ..out }),
            Err(m) => Err(m),
        }
    } else if same_text(key, "queue") {
        if out.queue.is_some() {
            return Err(duplicate_text(key));
        }
        match read_text(&plain_value(value)) {
            Ok(s) => Ok(ZizqAttrs { queue: Some(s), ..out }),
            Err(m) => Err(m),
        }
    } else if same_text(key, "priority") {
        if out.priority.is_some() {
            return Err(duplicate_text(key));
        }
        match read_number(&plain_value(value), u16::MAX as u64) {
            Ok(n) => Ok(ZizqAttrs { priority: Some(n as u16), ..out }),
            Err(m) => Err(m),
        }
    } else if same_text(key, "retry_limit") {
        if out.retry_limit.is_some() {
            return Err(duplicate_text(key));
        }
        match read_number(&plain_value(value), u32::MAX as u64) {
            Ok(n) => Ok(ZizqAttrs { retry_limit: Some(n as u32), ..out }),
            Err(m) => Err(m),
        }
    } else if same_text(key, "backoff") {
        if out.backoff.is_some() {
            return Err(duplicate_text(key));
        }
        match value {
            MetaValue::Group(items) => match read_backoff_group(items) {
                Ok(b) => Ok(ZizqAttrs { backoff: Some(b), ..out }),
                Err(m) => Err(m),
            },
            MetaValue::Plain(_) => Err("expected parentheses".to_owned()),
        }
    } else if same_text(key, "retention") {
        if out.retention.is_some() {
            return Err(duplicate_text(key));
        }
        match value {
            MetaValue::Group(items) => match read_retention_group(items) {
                Ok(c) => Ok(ZizqAttrs { retention: Some(c), ..out }),
                Err(m) => Err(m),
            },
            MetaValue::Plain(_) => Err("expected parentheses".to_owned()),
        }
    } else if same_text(key, "unique") {
        if out.unique.is_some() {
            return Err(duplicate_text(key));
        }
        match value {
            MetaValue::Group(items) => match read_unique_group(items) {
                Ok(u) => Ok(ZizqAttrs { unique: Some(u), ..out }),
                Err(m) => Err(m),
            },
            MetaValue::Plain(Literal::Missing) => Ok(
                ZizqAttrs {
                    unique: Some(UniqueAttr { selection: None, scope: None, prefix: None }),
                    ..out
                },
            ),
            MetaValue::Plain(_) => Err("expected parentheses".to_owned()),
        }
    } else {
        Err(unknown_text("zizq", key))
    }
}

impl ZizqAttrs {
    /// Collects the recognised keys of every `#[zizq(...)]` attribute.
    /// Several of them are merged into one; other attributes are ignored.
    /// A key that is unknown, given twice or out of range is an error.
    pub fn parse(attributes: &Vec<Attribute>) -> (r: Result<ZizqAttrs, String>)
        ensures
            ({
                let items = own_items(attributes@, attributes@.len() as int);
                match attrs_of(items, items.len() as int) {
                    Ok(a) => r matches Ok(b) && b@ == a,
                    Err(m) => same_error(r, m),
                }
            }),
    {
        let ghost whole = own_items(attributes@, attributes@.len() as int);
        let mut out = ZizqAttrs {
            name: None,
            queue: None,
            priority: None,
            retry_limit: None,
            backoff: None,
            retention: None,
            unique: None,
        };
        let mut i: usize = 0;
        while i < attributes.len()
            invariant
                i <= attributes@.len(),
                whole == own_items(attributes@, attributes@.len() as int),
                own_items(attributes@, i as int).len() <= whole.len(),
                forall|k: int|
                    0 <= k < own_items(attributes@, i as int).len() ==> #[trigger] whole[k]
                        == own_items(attributes@, i as int)[k],
                attrs_of(whole, own_items(attributes@, i as int).len() as int) == Ok::<
                    AttrsModel,
                    Seq<char>,
                >(out@),
            decreases attributes@.len() - i,
        {
            let attribute = &attributes[i];
            let ghost before = own_items(attributes@, i as int);
            proof {
                lemma_own_items_prefix(attributes@, i + 1, attributes@.len() as int);
            }
            if same_text(attribute.path.as_str(), "zizq") {
                let ghost list = item_models(attribute.items@);
                let ghost after = own_items(attributes@, i + 1);
                assert(after == before + list);
                let mut j: usize = 0;
                while j < attribute.items.len()
                    invariant
                        j <= attribute.items@.len(),
                        list == item_models(attribute.items@),
                        after == before + list,
                        after.len() <= whole.len(),
                        forall|k: int| 0 <= k < after.len() ==> #[trigger] whole[k] == after[k],
                        attrs_of(whole, before.len() + j) == Ok::<AttrsModel, Seq<char>>(out@),
                        whole == own_items(attributes@, attributes@.len() as int),
                    decreases attribute.items@.len() - j,
                {
                    proof {
                        assert(whole[before.len() + j] == after[before.len() + j]);
                        assert(after[before.len() + j] == attribute.items@[j as int]@);
                    }
                    match &attribute.items[j] {
                        Item::Meta { key, value } => match put_attr(out, key.as_str(), value) {
                            Ok(next) => {
                                out = next;
                            },
                            Err(m) => {
                                proof {
                                    lemma_attrs_stay_wrong(
                                        whole,
                                        before.len() + j + 1,
                                        whole.len() as int,
                                        m@,
                                    );
                                }
                                return Err(m);
                            },
                        },
                        Item::Malformed(m) => {
                            proof {
                                lemma_attrs_stay_wrong(
                                    whole,
                                    before.len() + j + 1,
                                    whole.len() as int,
                                    m@,
                                );
                            }
                            return Err(m.clone());
                        },
                    }
                    j += 1;
                }
            }
            i += 1;
        }
        Ok(out)
    }
}

/// Earlier attributes come first among our items.
proof fn lemma_own_items_prefix(attributes: Seq<Attribute>, n: int, end: int)
    requires
        0 <= n <= end,
    ensures
        own_items(attributes, n).len() <= own_items(attributes, end).len(),
        forall|k: int|
            0 <= k < own_items(attributes, n).len() ==> #[trigger] own_items(attributes, end)[k]
                == own_items(attributes, n)[k],
    decreases end,
{
    if n < end {
        lemma_own_items_prefix(attributes, n, end - 1);
    }
}

/// Splitting the keys of one attribute over several changes nothing: what
/// counts is the sequence of all our items.
pub proof fn law_stacked_attributes_merge(
    a: Seq<ItemModel>,
    b: Seq<ItemModel>,
    first: Attribute,
    second: Attribute,
    both: Attribute,
)
    requires
        first.path@ == "zizq"@,
        second.path@ == "zizq"@,
        both.path@ == "zizq"@,
        item_models(first.items@) == a,
        item_models(second.items@) == b,
        item_models(both.items@) == a + b,
    ensures
        own_items(seq![first, second], 2) == own_items(seq![both], 1),
{
    let split = seq![first, second];
    assert(own_items(split, 0) =~= Seq::empty());
    assert(own_items(split, 1) =~= a) by {
        assert(split[0] == first);
    }
    assert(own_items(split, 2) =~= a + b) by {
        assert(split[1] == second);
    }
    assert(own_items(seq![both], 0) =~= Seq::empty());
    assert(own_items(seq![both], 1) =~= a + b) by {
        assert(seq![both][0] == both);
    }
}

/// Attributes of others are ignored.
pub proof fn law_other_attributes_are_ignored(attributes: Seq<Attribute>, other: Attribute)
    requires
        other.path@ != "zizq"@,
    ensures
        own_items(attributes.push(other), attributes.len() as int + 1) == own_items(
            attributes,
            attributes.len() as int,
        ),
{
    let more = attributes.push(other);
    assert(more[attributes.len() as int] == other);
    lemma_own_items_same(attributes, more, attributes.len() as int);
}

proof fn lemma_own_items_same(a: Seq<Attribute>, b: Seq<Attribute>, n: int)
    requires
        0 <= n <= a.len(),
        n <= b.len(),
        forall|k: int| 0 <= k < n ==> #[trigger] a[k] == b[k],
    ensures
        own_items(a, n) == own_items(b, n),
    decreases n,
{
    if n > 0 {
        lemma_own_items_same(a, b, n - 1);
        assert(a[n - 1] == b[n - 1]);
    }
}

} // verus!
