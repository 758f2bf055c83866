//! What a job type's attributes declare: each setting is the value behind
//! its own key.

use vstd::prelude::*;
use vstd::string::*;
use crate::attrs::{
    attrs_of, backoff_parts, item_models, law_stacked_attributes_merge, own_items,
        retention_parts, unique_group, Attribute,
    AttrsModel, BackoffParts, Given, ItemModel, Lit, Selected, UniqueModel, UniqueSelection,
    ZizqAttrs,
};
use crate::json::Number;
use crate::json_text::int_token;
use crate::resources::RetentionConfig;
use crate::text::{all_digits, decimal_value, opt_text, texts};
use crate::unique_key::UniqueScope;

verus! {

/// Whether a literal is the number `n`.
pub open spec fn is_number(l: Lit, n: int) -> bool {
    l matches Lit::Digits(s) && s.len() > 0 && all_digits(s) && decimal_value(s) == n
}

/// Whether `items` give `key` the literal `l`, at place `k` and nowhere
/// else.
pub open spec fn gives(items: Seq<(Seq<char>, Lit)>, key: Seq<char>, k: int, l: Lit) -> bool {
    0 <= k < items.len() && items[k] == (key, l) && forall|j: int|
        0 <= j < items.len() && j != k ==> (#[trigger] items[j]).0 != key
}

/// Whether `items` do not give `key` anything.
pub open spec fn gives_none(items: Seq<(Seq<char>, Lit)>, key: Seq<char>) -> bool {
    forall|j: int| 0 <= j < items.len() ==> (#[trigger] items[j]).0 != key
}

/// Whether a number is behind its key, once, or missing with it.
pub open spec fn number_behind(
    items: Seq<(Seq<char>, Lit)>,
    key: Seq<char>,
    n: Option<int>,
) -> bool {
    match n {
        Some(n) => exists|k: int, l: Lit| #[trigger] gives(items, key, k, l) && is_number(l, n),
        None => gives_none(items, key),
    }
}

/// Whether the digits of a fraction are behind their key, once, or missing
/// with it.
pub open spec fn decimal_behind(
    items: Seq<(Seq<char>, Lit)>,
    key: Seq<char>,
    s: Option<Seq<char>>,
) -> bool {
    match s {
        Some(s) => exists|k: int, l: Lit| #[trigger]
            gives(items, key, k, l) && l == Lit::Decimal(s),
        None => gives_none(items, key),
    }
}

/// Whether a group declares the parts of a backoff.
spec fn declares_parts(items: Seq<(Seq<char>, Lit)>, b: BackoffParts) -> bool {
    &&& number_behind(
        items,
        "base_ms"@,
        match b.base_ms {
            Some(n) => Some(n as int),
            None => None,
        },
    )
    &&& decimal_behind(items, "exponent"@, b.exponent)
    &&& number_behind(
        items,
        "jitter_ms"@,
        match b.jitter_ms {
            Some(n) => Some(n as int),
            None => None,
        },
    )
    &&& forall|j: int|
        0 <= j < items.len() ==> (#[trigger] items[j]).0 == "base_ms"@ || items[j].0 == "exponent"@
            || items[j].0 == "jitter_ms"@
}

/// What is given stays given when a member with another key follows.
proof fn lemma_gives_push(
    items: Seq<(Seq<char>, Lit)>,
    item: (Seq<char>, Lit),
    key: Seq<char>,
    k: int,
    l: Lit,
)
    ensures
        gives(items, key, k, l) && item.0 != key ==> gives(items.push(item), key, k, l),
        gives_none(items, key) && item.0 != key ==> gives_none(items.push(item), key),
        gives_none(items, key) && item.0 == key ==> gives(
            items.push(item),
            key,
            items.len() as int,
            item.1,
        ),
{
    let all = items.push(item);
    assert forall|j: int| 0 <= j < items.len() implies #[trigger] all[j] == items[j] by {}
    assert(all[items.len() as int] == item);
    if gives(items, key, k, l) && item.0 != key {
        assert forall|j: int| 0 <= j < all.len() && j != k implies (#[trigger] all[j]).0 != key by {
            if j < items.len() {
                assert(all[j] == items[j]);
            }
        }
    }
    if gives_none(items, key) {
        assert forall|j: int| 0 <= j < items.len() implies (#[trigger] all[j]).0 != key by {
            assert(all[j] == items[j]);
        }
    }
}

proof fn lemma_number_push(
    items: Seq<(Seq<char>, Lit)>,
    item: (Seq<char>, Lit),
    key: Seq<char>,
    n: Option<int>,
)
    ensures
        number_behind(items, key, n) && item.0 != key ==> number_behind(items.push(item), key, n),
        number_behind(items, key, None) && item.0 == key ==> forall|m: int|
            is_number(item.1, m) ==> #[trigger] number_behind(items.push(item), key, Some(m)),
{
    if number_behind(items, key, n) && item.0 != key {
        if n is Some {
            let (k, l) = choose|k: int, l: Lit| #[trigger]
                gives(items, key, k, l) && is_number(l, n->0);
            lemma_gives_push(items, item, key, k, l);
            assert(gives(items.push(item), key, k, l));
        } else {
            lemma_gives_push(items, item, key, 0, item.1);
        }
    }
    if number_behind(items, key, None) && item.0 == key {
        lemma_gives_push(items, item, key, 0, item.1);
        assert(gives(items.push(item), key, items.len() as int, item.1));
    }
}

proof fn lemma_decimal_push(
    items: Seq<(Seq<char>, Lit)>,
    item: (Seq<char>, Lit),
    key: Seq<char>,
    s: Option<Seq<char>>,
)
    ensures
        decimal_behind(items, key, s) && item.0 != key ==> decimal_behind(items.push(item), key, s),
        decimal_behind(items, key, None) && item.0 == key ==> (item.1 matches Lit::Decimal(t)
            ==> decimal_behind(items.push(item), key, Some(t))),
{
    if decimal_behind(items, key, s) && item.0 != key {
        if s is Some {
            let (k, l) = choose|k: int, l: Lit| #[trigger]
                gives(items, key, k, l) && l == Lit::Decimal(s->0);
            lemma_gives_push(items, item, key, k, l);
            assert(gives(items.push(item), key, k, l));
        } else {
            lemma_gives_push(items, item, key, 0, item.1);
        }
    }
    if decimal_behind(items, key, None) && item.0 == key {
        lemma_gives_push(items, item, key, 0, item.1);
        if let Lit::Decimal(t) = item.1 {
            assert(gives(items.push(item), key, items.len() as int, item.1));
        }
    }
}

proof fn lemma_group_keys()
    ensures
        "base_ms"@ != "exponent"@,
        "base_ms"@ != "jitter_ms"@,
        "exponent"@ != "jitter_ms"@,
        "completed_ms"@ != "dead_ms"@,
        "only"@ != "except"@,
        "only"@ != "scope"@,
        "only"@ != "prefix"@,
        "except"@ != "scope"@,
        "except"@ != "prefix"@,
        "scope"@ != "prefix"@,
{
    reveal_strlit("base_ms");
    reveal_strlit("exponent");
    reveal_strlit("jitter_ms");
    reveal_strlit("completed_ms");
    reveal_strlit("dead_ms");
    reveal_strlit("only");
    reveal_strlit("except");
    reveal_strlit("scope");
    reveal_strlit("prefix");
    assert("base_ms"@.len() == 7 && "exponent"@.len() == 8 && "jitter_ms"@.len() == 9);
    assert("completed_ms"@.len() == 12 && "dead_ms"@.len() == 7);
    assert("only"@.len() == 4 && "except"@.len() == 6 && "scope"@.len() == 5);
    assert("prefix"@.len() == 6);
    assert("except"@[0] == 'e' && "prefix"@[0] == 'p');
}

proof fn lemma_backoff_parts(items: Seq<(Seq<char>, Lit)>, n: int)
    requires
        0 <= n <= items.len(),
    ensures
        backoff_parts(items, n) matches Ok(b) ==> declares_parts(items.take(n), b),
    decreases n,
{
    lemma_group_keys();
    if n == 0 {
        assert(items.take(0) =~= Seq::empty());
    } else if let Ok(b) = backoff_parts(items, n) {
        lemma_backoff_parts(items, n - 1);
        let before = items.take(n - 1);
        let item = items[n - 1];
        assert(items.take(n) =~= before.push(item));
        let p = backoff_parts(items, n - 1)->Ok_0;
        lemma_number_push(
            before,
            item,
            "base_ms"@,
            match p.base_ms {
                Some(n) => Some(n as int),
                None => None,
            },
        );
        lemma_number_push(
            before,
            item,
            "jitter_ms"@,
            match p.jitter_ms {
                Some(n) => Some(n as int),
                None => None,
            },
        );
        lemma_decimal_push(before, item, "exponent"@, p.exponent);
        let all = before.push(item);
        assert forall|j: int| 0 <= j < all.len() implies (#[trigger] all[j]).0 == "base_ms"@
            || all[j].0 == "exponent"@ || all[j].0 == "jitter_ms"@ by {
            if j < before.len() {
                assert(all[j] == before[j]);
            }
        }
    }
}

/// Whether a group declares a retention: one number or two, each behind its
/// own key, and nothing else.
pub open spec fn declares_retention(items: Seq<(Seq<char>, Lit)>, r: RetentionConfig) -> bool {
    &&& number_behind(
        items,
        "completed_ms"@,
        match r.completed_ms {
            Some(n) => Some(n as int),
            None => None,
        },
    )
    &&& number_behind(
        items,
        "dead_ms"@,
        match r.dead_ms {
            Some(n) => Some(n as int),
            None => None,
        },
    )
    &&& forall|j: int|
        0 <= j < items.len() ==> (#[trigger] items[j]).0 == "completed_ms"@ || items[j].0
            == "dead_ms"@
}

proof fn lemma_retention_parts(items: Seq<(Seq<char>, Lit)>, n: int)
    requires
        0 <= n <= items.len(),
    ensures
        retention_parts(items, n) matches Ok(r) ==> declares_retention(items.take(n), r),
    decreases n,
{
    lemma_group_keys();
    if n == 0 {
        assert(items.take(0) =~= Seq::empty());
    } else if let Ok(r) = retention_parts(items, n) {
        lemma_retention_parts(items, n - 1);
        let before = items.take(n - 1);
        let item = items[n - 1];
        assert(items.take(n) =~= before.push(item));
        let p = retention_parts(items, n - 1)->Ok_0;
        lemma_number_push(
            before,
            item,
            "completed_ms"@,
            match p.completed_ms {
                Some(n) => Some(n as int),
                None => None,
            },
        );
        lemma_number_push(
            before,
            item,
            "dead_ms"@,
            match p.dead_ms {
                Some(n) => Some(n as int),
                None => None,
            },
        );
        let all = before.push(item);
        assert forall|j: int| 0 <= j < all.len() implies (#[trigger] all[j]).0 == "completed_ms"@
            || all[j].0 == "dead_ms"@ by {
            if j < before.len() {
                assert(all[j] == before[j]);
            }
        }
    }
}

/// Whether a group declares a uniqueness: paths to pick or to leave out, a
/// scope by its word, and whether the name goes in front, each behind its own
/// key, once, or missing with it.
pub open spec fn declares_unique(items: Seq<(Seq<char>, Lit)>, u: UniqueModel) -> bool {
    &&& match u.selection {
        Some(Selected::Only(paths)) => (exists|k: int, l: Lit| #[trigger] gives(items, "only"@, k,
            l) && l == Lit::List(paths)) && gives_none(items, "except"@),
        Some(Selected::Except(paths)) => (exists|k: int, l: Lit| #[trigger] gives(items,
            "except"@, k, l) && l == Lit::List(paths)) && gives_none(items, "only"@),
        None => gives_none(items, "only"@) && gives_none(items, "except"@),
    }
    &&& match u.scope {
        Some(scope) => exists|k: int, word: Seq<char>| #[trigger]
            gives(items, "scope"@, k, Lit::Text(word)) && (match scope {
                UniqueScope::Queued => word == "queued"@,
                UniqueScope::Active => word == "active"@,
                UniqueScope::Exists => word == "exists"@,
                UniqueScope::Unknown => false,
            }),
        None => gives_none(items, "scope"@),
    }
    &&& match u.prefix {
        Some(on) => exists|k: int, l: Lit| #[trigger] gives(items, "prefix"@, k, l)
            && l == Lit::Flag(on),
        None => gives_none(items, "prefix"@),
    }
    &&& forall|j: int|
        0 <= j < items.len() ==> (#[trigger] items[j]).0 == "only"@ || items[j].0 == "except"@
            || items[j].0 == "scope"@ || items[j].0 == "prefix"@
}

#[verifier::rlimit(60)]
proof fn lemma_unique_group(items: Seq<(Seq<char>, Lit)>, n: int)
    requires
        0 <= n <= items.len(),
    ensures
        unique_group(items, n) matches Ok(u) ==> declares_unique(items.take(n), u),
    decreases n,
{
    lemma_group_keys();
    if n == 0 {
        assert(items.take(0) =~= Seq::empty());
    } else if let Ok(u) = unique_group(items, n) {
        lemma_unique_group(items, n - 1);
        let before = items.take(n - 1);
        let item = items[n - 1];
        let all = before.push(item);
        let at = before.len() as int;
        assert(items.take(n) =~= all);
        let p = unique_group(items, n - 1)->Ok_0;
        assert forall|key: Seq<char>, k: int, l: Lit| #[trigger]
            gives(before, key, k, l) && item.0 != key implies gives(all, key, k, l) by {
            lemma_gives_push(before, item, key, k, l);
        }
        assert forall|key: Seq<char>| #[trigger] gives_none(before, key) && item.0
            != key implies gives_none(all, key) by {
            lemma_gives_push(before, item, key, 0, item.1);
        }
        assert forall|key: Seq<char>| #[trigger] gives_none(before, key) && item.0
            == key implies gives(all, key, at, item.1) by {
            lemma_gives_push(before, item, key, 0, item.1);
        }
        assert(declares_unique(before, p));
        if item.0 == "only"@ {
            let paths = u.selection->0->Only_0;
            assert(gives(all, "only"@, at, item.1));
            assert(gives_none(all, "except"@));
        } else if item.0 == "except"@ {
            let paths = u.selection->0->Except_0;
            assert(gives(all, "except"@, at, item.1));
            assert(gives_none(all, "only"@));
        } else {
            match p.selection {
                Some(Selected::Only(paths)) => {
                    let (k, l) = choose|k: int, l: Lit| #[trigger] gives(before, "only"@, k, l)
                        && l == Lit::List(paths);
                    assert(gives(all, "only"@, k, l));
                    assert(gives_none(all, "except"@));
                },
                Some(Selected::Except(paths)) => {
                    let (k, l) = choose|k: int, l: Lit| #[trigger] gives(before, "except"@, k, l)
                        && l == Lit::List(paths);
                    assert(gives(all, "except"@, k, l));
                    assert(gives_none(all, "only"@));
                },
                None => {
                    assert(gives_none(all, "only"@));
                    assert(gives_none(all, "except"@));
                },
            }
        }
        if item.0 == "scope"@ {
            let word = item.1->Text_0;
            assert(gives(all, "scope"@, at, Lit::Text(word)));
        } else {
            match p.scope {
                Some(scope) => {
                    let (k, word) = choose|k: int, word: Seq<char>| #[trigger]
                        gives(before, "scope"@, k, Lit::Text(word)) && (match scope {
                            UniqueScope::Queued => word == "queued"@,
                            UniqueScope::Active => word == "active"@,
                            UniqueScope::Exists => word == "exists"@,
                            UniqueScope::Unknown => false,
                        });
                    assert(gives(all, "scope"@, k, Lit::Text(word)));
                },
                None => {
                    assert(gives_none(all, "scope"@));
                },
            }
        }
        if item.0 == "prefix"@ {
            let on = item.1->Flag_0;
            assert(gives(all, "prefix"@, at, item.1));
        } else {
            match p.prefix {
                Some(on) => {
                    let (k, l) = choose|k: int, l: Lit| #[trigger] gives(before, "prefix"@, k, l)
                        && l == Lit::Flag(on);
                    assert(gives(all, "prefix"@, k, l));
                },
                None => {
                    assert(gives_none(all, "prefix"@));
                },
            }
        }
        assert forall|j: int| 0 <= j < all.len() implies (#[trigger] all[j]).0 == "only"@
            || all[j].0 == "except"@ || all[j].0 == "scope"@ || all[j].0 == "prefix"@ by {
            if j < before.len() {
                assert(all[j] == before[j]);
            }
        }
        assert(match u.selection {
            Some(Selected::Only(paths)) => (exists|k: int, l: Lit| #[trigger] gives(all, "only"@,
                k, l) && l == Lit::List(paths)) && gives_none(all, "except"@),
            Some(Selected::Except(paths)) => (exists|k: int, l: Lit| #[trigger] gives(all,
                "except"@, k, l) && l == Lit::List(paths)) && gives_none(all, "only"@),
            None => gives_none(all, "only"@) && gives_none(all, "except"@),
        });
        assert(match u.prefix {
            Some(on) => exists|k: int, l: Lit| #[trigger] gives(all, "prefix"@, k, l)
                && l == Lit::Flag(on),
            None => gives_none(all, "prefix"@),
        });
        assert(match u.scope {
            Some(scope) => exists|k: int, word: Seq<char>| #[trigger]
                gives(all, "scope"@, k, Lit::Text(word)) && (match scope {
                    UniqueScope::Queued => word == "queued"@,
                    UniqueScope::Active => word == "active"@,
                    UniqueScope::Exists => word == "exists"@,
                    UniqueScope::Unknown => false,
                }),
            None => gives_none(all, "scope"@),
        });
    }
}

/// Whether `items` give `key` the value `g`, at place `k` and nowhere else.
pub open spec fn sets(items: Seq<ItemModel>, key: Seq<char>, k: int, g: Given) -> bool {
    0 <= k < items.len() && items[k] == ItemModel::Meta(key, g) && forall|j: int|
        0 <= j < items.len() && j != k ==> !((#[trigger] items[j]) matches ItemModel::Meta(other, _)
            && other == key)
}

/// Whether `items` do not give `key` anything.
pub open spec fn sets_none(items: Seq<ItemModel>, key: Seq<char>) -> bool {
    forall|j: int|
        0 <= j < items.len() ==> !((#[trigger] items[j]) matches ItemModel::Meta(other, _) && other
            == key)
}

/// Whether a text is behind its key, once, or missing with it.
pub open spec fn text_set(items: Seq<ItemModel>, key: Seq<char>, s: Option<Seq<char>>) -> bool {
    match s {
        Some(s) => exists|k: int, g: Given| #[trigger]
            sets(items, key, k, g) && g == Given::Plain(Lit::Text(s)),
        None => sets_none(items, key),
    }
}

/// Whether a number is behind its key, once, or missing with it.
pub open spec fn number_set(items: Seq<ItemModel>, key: Seq<char>, n: Option<int>) -> bool {
    match n {
        Some(n) => exists|k: int, g: Given| #[trigger]
            sets(items, key, k, g) && (g matches Given::Plain(l) && is_number(l, n)),
        None => sets_none(items, key),
    }
}

/// Whether a backoff is behind its key, once, or missing with it.
pub open spec fn backoff_set(items: Seq<ItemModel>, b: Option<(u64, Seq<char>, u64)>) -> bool {
    match b {
        Some(b) => exists|k: int, g: Given| #[trigger]
            sets(items, "backoff"@, k, g) && (g matches Given::Group(list) && number_behind(
                list,
                "base_ms"@,
                Some(b.0 as int),
            ) && decimal_behind(list, "exponent"@, Some(b.1)) && number_behind(
                list,
                "jitter_ms"@,
                Some(b.2 as int),
            )),
        None => sets_none(items, "backoff"@),
    }
}

/// Whether a retention is behind its key, once, or missing with it.
pub open spec fn retention_set(items: Seq<ItemModel>, r: Option<RetentionConfig>) -> bool {
    match r {
        Some(r) => (r.completed_ms is Some || r.dead_ms is Some) && exists|k: int, g: Given|
            #[trigger]
            sets(items, "retention"@, k, g) && (g matches Given::Group(list) && declares_retention(
                list,
                r,
            )),
        None => sets_none(items, "retention"@),
    }
}

/// Whether a uniqueness is behind its key, once, or missing with it; the bare
/// key is one that selects nothing.
pub open spec fn unique_set(items: Seq<ItemModel>, u: Option<UniqueModel>) -> bool {
    match u {
        Some(u) => exists|k: int, g: Given| #[trigger]
            sets(items, "unique"@, k, g) && (match g {
                Given::Group(list) => declares_unique(list, u),
                Given::Plain(l) => l is Missing && u.selection is None && u.scope is None
                    && u.prefix is None,
            }),
        None => sets_none(items, "unique"@),
    }
}

/// Whether the items of an attribute declare `a`: each setting behind its own
/// key, once, or missing with it, and no other keys.
pub open spec fn declares_all(items: Seq<ItemModel>, a: AttrsModel) -> bool {
    &&& text_set(items, "name"@, a.name)
    &&& text_set(items, "queue"@, a.queue)
    &&& number_set(
        items,
        "priority"@,
        match a.priority {
            Some(n) => Some(n as int),
            None => None,
        },
    )
    &&& number_set(
        items,
        "retry_limit"@,
        match a.retry_limit {
            Some(n) => Some(n as int),
            None => None,
        },
    )
    &&& backoff_set(items, a.backoff)
    &&& retention_set(items, a.retention)
    &&& unique_set(items, a.unique)
    &&& forall|j: int|
        0 <= j < items.len() ==> ((#[trigger] items[j]) matches ItemModel::Meta(key, _)
            && attr_keys().contains(key))
}

/// The keys that an attribute can have.
pub open spec fn attr_keys() -> Seq<Seq<char>> {
    seq!["name"@, "queue"@, "priority"@, "retry_limit"@, "backoff"@, "retention"@, "unique"@]
}

proof fn lemma_attr_keys()
    ensures
        "name"@ != "queue"@,
        "name"@ != "priority"@,
        "name"@ != "retry_limit"@,
        "name"@ != "backoff"@,
        "name"@ != "retention"@,
        "name"@ != "unique"@,
        "queue"@ != "priority"@,
        "queue"@ != "retry_limit"@,
        "queue"@ != "backoff"@,
        "queue"@ != "retention"@,
        "queue"@ != "unique"@,
        "priority"@ != "retry_limit"@,
        "priority"@ != "backoff"@,
        "priority"@ != "retention"@,
        "priority"@ != "unique"@,
        "retry_limit"@ != "backoff"@,
        "retry_limit"@ != "retention"@,
        "retry_limit"@ != "unique"@,
        "backoff"@ != "retention"@,
        "backoff"@ != "unique"@,
        "retention"@ != "unique"@,
{
    reveal_strlit("name");
    reveal_strlit("queue");
    reveal_strlit("priority");
    reveal_strlit("retry_limit");
    reveal_strlit("backoff");
    reveal_strlit("retention");
    reveal_strlit("unique");
    assert("name"@.len() == 4);
    assert("queue"@.len() == 5);
    assert("priority"@.len() == 8);
    assert("retry_limit"@.len() == 11);
    assert("backoff"@.len() == 7);
    assert("retention"@.len() == 9);
    assert("unique"@.len() == 6);
}

proof fn lemma_sets_push(
    items: Seq<ItemModel>,
    at: Seq<char>,
    given: Given,
    key: Seq<char>,
    k: int,
    g: Given,
)
    ensures
        sets(items, key, k, g) && at != key ==> sets(
            items.push(ItemModel::Meta(at, given)),
            key,
            k,
            g,
        ),
        sets_none(items, key) && at != key ==> sets_none(
            items.push(ItemModel::Meta(at, given)),
            key,
        ),
        sets_none(items, key) && at == key ==> sets(
            items.push(ItemModel::Meta(at, given)),
            key,
            items.len() as int,
            given,
        ),
{
    let all = items.push(ItemModel::Meta(at, given));
    assert forall|j: int| 0 <= j < items.len() implies #[trigger] all[j] == items[j] by {}
    assert(all[items.len() as int] == ItemModel::Meta(at, given));
    if sets(items, key, k, g) && at != key {
        assert forall|j: int| 0 <= j < all.len() && j != k implies !((#[trigger] all[j])
            matches ItemModel::Meta(other, _) && other == key) by {
            if j < items.len() {
                assert(all[j] == items[j]);
            }
        }
    }
    if sets_none(items, key) {
        assert forall|j: int| 0 <= j < items.len() implies !((#[trigger] all[j])
            matches ItemModel::Meta(other, _) && other == key) by {
            assert(all[j] == items[j]);
        }
    }
}

/// What is set stays set when an item with another key follows.
proof fn lemma_set_push(items: Seq<ItemModel>, at: Seq<char>, given: Given, a: AttrsModel)
    requires
        declares_all(items, a),
    ensures
        ({
            let all = items.push(ItemModel::Meta(at, given));
            &&& at != "name"@ ==> text_set(all, "name"@, a.name)
            &&& at != "queue"@ ==> text_set(all, "queue"@, a.queue)
            &&& at != "priority"@ ==> number_set(
                all,
                "priority"@,
                match a.priority {
                    Some(n) => Some(n as int),
                    None => None,
                },
            )
            &&& at != "retry_limit"@ ==> number_set(
                all,
                "retry_limit"@,
                match a.retry_limit {
                    Some(n) => Some(n as int),
                    None => None,
                },
            )
            &&& at != "backoff"@ ==> backoff_set(all, a.backoff)
            &&& at != "retention"@ ==> retention_set(all, a.retention)
            &&& at != "unique"@ ==> unique_set(all, a.unique)
        }),
{
    let all = items.push(ItemModel::Meta(at, given));
    assert forall|key: Seq<char>, k: int, g: Given| #[trigger]
        sets(items, key, k, g) && at != key implies sets(all, key, k, g) by {
        lemma_sets_push(items, at, given, key, k, g);
    }
    assert forall|key: Seq<char>| #[trigger] sets_none(items, key) && at != key implies sets_none(
        all,
        key,
    ) by {
        lemma_sets_push(items, at, given, key, 0, given);
    }
    if at != "name"@ && a.name is Some {
        let (k, g) = choose|k: int, g: Given| #[trigger]
            sets(items, "name"@, k, g) && g == Given::Plain(Lit::Text(a.name->0));
        assert(sets(all, "name"@, k, g));
    }
    if at != "queue"@ && a.queue is Some {
        let (k, g) = choose|k: int, g: Given| #[trigger]
            sets(items, "queue"@, k, g) && g == Given::Plain(Lit::Text(a.queue->0));
        assert(sets(all, "queue"@, k, g));
    }
    if at != "priority"@ && a.priority is Some {
        let (k, g) = choose|k: int, g: Given| #[trigger]
            sets(items, "priority"@, k, g) && (g matches Given::Plain(l) && is_number(
                l,
                a.priority->0 as int,
            ));
        assert(sets(all, "priority"@, k, g));
    }
    if at != "retry_limit"@ && a.retry_limit is Some {
        let (k, g) = choose|k: int, g: Given| #[trigger]
            sets(items, "retry_limit"@, k, g) && (g matches Given::Plain(l) && is_number(
                l,
                a.retry_limit->0 as int,
            ));
        assert(sets(all, "retry_limit"@, k, g));
    }
    if at != "backoff"@ && a.backoff is Some {
        let b = a.backoff->0;
        let (k, g) = choose|k: int, g: Given| #[trigger]
            sets(items, "backoff"@, k, g) && (g matches Given::Group(list) && number_behind(
                list,
                "base_ms"@,
                Some(b.0 as int),
            ) && decimal_behind(list, "exponent"@, Some(b.1)) && number_behind(
                list,
                "jitter_ms"@,
                Some(b.2 as int),
            ));
        assert(sets(all, "backoff"@, k, g));
    }
    if at != "retention"@ && a.retention is Some {
        let (k, g) = choose|k: int, g: Given| #[trigger]
            sets(items, "retention"@, k, g) && (g matches Given::Group(list) && declares_retention(
                list,
                a.retention->0,
            ));
        assert(sets(all, "retention"@, k, g));
    }
    if at != "unique"@ && a.unique is Some {
        let u = a.unique->0;
        let (k, g) = choose|k: int, g: Given| #[trigger]
            sets(items, "unique"@, k, g) && (match g {
                Given::Group(list) => declares_unique(list, u),
                Given::Plain(l) => l is Missing && u.selection is None && u.scope is None
                    && u.prefix is None,
            });
        assert(sets(all, "unique"@, k, g));
    }
}

#[verifier::rlimit(80)]
proof fn lemma_attrs_of(items: Seq<ItemModel>, n: int)
    requires
        0 <= n <= items.len(),
    ensures
        attrs_of(items, n) matches Ok(a) ==> declares_all(items.take(n), a),
    decreases n,
{
    lemma_attr_keys();
    let keys = attr_keys();
    assert(keys[0] == "name"@ && keys[1] == "queue"@ && keys[2] == "priority"@);
    assert(keys[3] == "retry_limit"@ && keys[4] == "backoff"@ && keys[5] == "retention"@);
    assert(keys[6] == "unique"@);
    if n == 0 {
        assert(items.take(0) =~= Seq::empty());
    } else if let Ok(a) = attrs_of(items, n) {
        lemma_attrs_of(items, n - 1);
        let before = items.take(n - 1);
        let p = attrs_of(items, n - 1)->Ok_0;
        let key = items[n - 1]->Meta_0;
        let given = items[n - 1]->Meta_1;
        let all = before.push(ItemModel::Meta(key, given));
        let at = before.len() as int;
        assert(items.take(n) =~= all);
        lemma_set_push(before, key, given, p);
        lemma_sets_push(before, key, given, key, 0, given);
        if let Given::Group(list) = given {
            lemma_backoff_parts(list, list.len() as int);
            lemma_retention_parts(list, list.len() as int);
            lemma_unique_group(list, list.len() as int);
            assert(list.take(list.len() as int) =~= list);
        }
        if key == "name"@ || key == "queue"@ || key == "priority"@ || key == "retry_limit"@ || key
            == "backoff"@ || key == "retention"@ || key == "unique"@ {
            assert(sets(all, key, at, given));
        }
        assert forall|j: int| 0 <= j < all.len() implies ((#[trigger] all[j])
            matches ItemModel::Meta(k, _) && keys.contains(k)) by {
            if j < before.len() {
                assert(all[j] == before[j]);
            } else {
                assert(keys.contains(key));
            }
        }
    }
}

/// What attributes hold, as texts and numbers.
pub open spec fn declared(a: ZizqAttrs) -> AttrsModel {
    AttrsModel {
        name: opt_text(a.name),
        queue: opt_text(a.queue),
        priority: a.priority,
        retry_limit: a.retry_limit,
        backoff: match a.backoff {
            Some(b) => Some(
                (
                    b.base_ms,
                    match b.exponent {
                        Number::PosInt(n) => int_token(n as int),
                        Number::NegInt(n) => int_token(n as int),
                        Number::Float(t) => t@,
                    },
                    b.jitter_ms,
                ),
            ),
            None => None,
        },
        retention: a.retention,
        unique: match a.unique {
            Some(u) => Some(
                UniqueModel {
                    selection: match u.selection {
                        Some(UniqueSelection::Only(v)) => Some(Selected::Only(texts(v@))),
                        Some(UniqueSelection::Except(v)) => Some(Selected::Except(texts(v@))),
                        None => None,
                    },
                    scope: u.scope,
                    prefix: u.prefix,
                },
            ),
            None => None,
        },
    }
}

/// An attribute that is accepted declares exactly what it says: each setting
/// is the value behind its own key. A key that is given twice, is not known,
/// or has a value of another kind is never accepted.
pub proof fn law_attribute_declares_what_it_says(
    attributes: Vec<Attribute>,
    r: Result<ZizqAttrs, String>,
)
    requires
        attributes@.len() == 1,
        attributes@[0].path@ == "zizq"@,
        call_ensures(ZizqAttrs::parse, (&attributes,), r),
    ensures
        r matches Ok(a) ==> declares_all(
            Seq::new(attributes@[0].items@.len(), |i: int| attributes@[0].items@[i]@),
            declared(a),
        ),
{
    let items = item_models(attributes@[0].items@);
    assert(items =~= Seq::new(attributes@[0].items@.len(), |i: int| attributes@[0].items@[i]@));
    assert(own_items(attributes@, 0) =~= Seq::empty());
    assert(own_items(attributes@, 1) =~= items);
    lemma_attrs_of(items, items.len() as int);
    assert(items.take(items.len() as int) =~= items);
}

/// Attributes of others declare nothing, and a type without attributes
/// declares nothing.
pub proof fn law_other_attributes_declare_nothing(
    attributes: Vec<Attribute>,
    r: Result<ZizqAttrs, String>,
)
    requires
        forall|i: int| 0 <= i < attributes@.len() ==> (#[trigger] attributes@[i]).path@ != "zizq"@,
        call_ensures(ZizqAttrs::parse, (&attributes,), r),
    ensures
        r matches Ok(a) && a.name is None && a.queue is None && a.priority is None && a.retry_limit
            is None && a.backoff is None && a.retention is None && a.unique is None,
{
    lemma_no_own_items(attributes@, attributes@.len() as int);
}

proof fn lemma_no_own_items(attributes: Seq<Attribute>, n: int)
    requires
        0 <= n <= attributes.len(),
        forall|i: int| 0 <= i < attributes.len() ==> (#[trigger] attributes[i]).path@ != "zizq"@,
    ensures
        own_items(attributes, n).len() == 0,
    decreases n,
{
    if n > 0 {
        lemma_no_own_items(attributes, n - 1);
        assert(attributes[n - 1].path@ != "zizq"@);
    }
}

/// Whether an item is a plain setting with a value of its kind: a text for a
/// name or a queue, a number in range for a priority or a retry limit, or the
/// bare key that makes jobs unique.
pub open spec fn is_plain_setting(item: ItemModel) -> bool {
    item matches ItemModel::Meta(key, g) && (g matches Given::Plain(l) && {
        ||| (key == "name"@ || key == "queue"@) && l is Text
        ||| key == "priority"@ && exists|n: int| 0 <= n <= u16::MAX && #[trigger] is_number(l, n)
        ||| key == "retry_limit"@ && exists|n: int|
            0 <= n <= u32::MAX && #[trigger] is_number(l, n)
        ||| key == "unique"@ && l is Missing
    })
}

/// Whether no key is given twice.
pub open spec fn keys_differ(items: Seq<ItemModel>) -> bool {
    forall|i: int, j: int|
        #![trigger items[i], items[j]]
        0 <= i < j < items.len() ==> items[i]->Meta_0 != items[j]->Meta_0
}

proof fn lemma_accepted(items: Seq<ItemModel>, n: int)
    requires
        0 <= n <= items.len(),
        forall|i: int| 0 <= i < items.len() ==> is_plain_setting(#[trigger] items[i]),
        keys_differ(items),
    ensures
        attrs_of(items, n) is Ok,
    decreases n,
{
    lemma_attr_keys();
    if n > 0 {
        lemma_accepted(items, n - 1);
        lemma_attrs_of(items, n - 1);
        let before = items.take(n - 1);
        let a = attrs_of(items, n - 1)->Ok_0;
        let item = items[n - 1];
        assert(is_plain_setting(item));
        let key = item->Meta_0;
        assert forall|k: int, g: Given| !#[trigger] sets(before, key, k, g) by {
            if sets(before, key, k, g) {
                assert(before[k] == items[k]);
                assert(items[k]->Meta_0 == items[n - 1]->Meta_0);
            }
        }
    }
}

/// An attribute of plain settings, each of its kind and given once, is
/// accepted.
pub proof fn law_good_attribute_is_accepted(
    attributes: Vec<Attribute>,
    r: Result<ZizqAttrs, String>,
)
    requires
        attributes@.len() == 1,
        attributes@[0].path@ == "zizq"@,
        forall|i: int|
            0 <= i < attributes@[0].items@.len() ==> is_plain_setting(
                (#[trigger] attributes@[0].items@[i])@,
            ),
        keys_differ(Seq::new(attributes@[0].items@.len(), |i: int| attributes@[0].items@[i]@)),
        call_ensures(ZizqAttrs::parse, (&attributes,), r),
    ensures
        r is Ok,
{
    let items = item_models(attributes@[0].items@);
    assert(items =~= Seq::new(attributes@[0].items@.len(), |i: int| attributes@[0].items@[i]@));
    assert(own_items(attributes@, 0) =~= Seq::empty());
    assert(own_items(attributes@, 1) =~= items);
    assert forall|i: int| 0 <= i < items.len() implies is_plain_setting(#[trigger] items[i]) by {
        assert(items[i] == attributes@[0].items@[i]@);
    }
    lemma_accepted(items, items.len() as int);
}

/// Keys that are spread over two attributes declare what they declare in one.
pub proof fn law_stacked_attributes_declare_the_same(
    split: Vec<Attribute>,
    whole: Vec<Attribute>,
    a: Result<ZizqAttrs, String>,
    b: Result<ZizqAttrs, String>,
)
    requires
        split@.len() == 2,
        whole@.len() == 1,
        split@[0].path@ == "zizq"@,
        split@[1].path@ == "zizq"@,
        whole@[0].path@ == "zizq"@,
        whole@[0].items@ == split@[0].items@ + split@[1].items@,
        call_ensures(ZizqAttrs::parse, (&split,), a),
        call_ensures(ZizqAttrs::parse, (&whole,), b),
    ensures
        a is Ok == b is Ok,
        a matches Ok(x) ==> (b matches Ok(y) && declared(x) == declared(y)),
        a matches Err(m) ==> (b matches Err(n) && m@ == n@),
{
    let first = item_models(split@[0].items@);
    let second = item_models(split@[1].items@);
    assert(item_models(whole@[0].items@) =~= first + second);
    law_stacked_attributes_merge(first, second, split@[0], split@[1], whole@[0]);
    assert(split@ =~= seq![split@[0], split@[1]]);
    assert(whole@ =~= seq![whole@[0]]);
}

} // verus!
