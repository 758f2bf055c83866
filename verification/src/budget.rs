//! Server-side throttling: budgets, their policies and bindings.

use vstd::prelude::*;
use crate::decode::{
    by_position, get, int_field, is_text_list, opt_int_field, read_field, read_int_field,
    read_opt_int_field, read_sole, read_text_field, read_text_list, record, sole, text_field,
    text_list,
};
use crate::duration::{Duration, NANOS_PER_MILLI};
use crate::job_patch::{
    field_text, field_u32, field_u64, merge_field, put_number, put_text, widen_u32, Field,
};
use crate::json::{group_value_models, models, Json, Value};
use crate::text::{same_text, slice_texts, texts};
use crate::wire::{field, lemma_field, opt_field, opt_int, opt_u32, opt_u64, Fields};

verus! {

/// How a budget's tokens are managed.
#[derive(Debug, Clone, PartialEq, Eq)]
pub enum BudgetStrategy {
    /// A rate limit: the allocation replenishes over `duration`.
    TimeBased {
        /// Period over which the full allocation replenishes.
        duration: Duration,
        /// Most tokens the pool may hold; `None` means the allocation.
        burst: Option<u32>,
    },
    /// A concurrency limit: tokens are held for as long as the job runs.
    WhileInFlight,
    /// A strategy that this version of the client does not recognise.
    Unknown {
        /// The name that the server gave it.
        kind: String,
    },
}

/// Model of a strategy.
pub enum Strategy {
    TimeBased(Duration, Option<u32>),
    WhileInFlight,
    Unknown(Seq<char>),
}

impl View for BudgetStrategy {
    type V = Strategy;

    open spec fn view(&self) -> Strategy {
        match *self {
            BudgetStrategy::TimeBased { duration, burst } => Strategy::TimeBased(duration, burst),
            BudgetStrategy::WhileInFlight => Strategy::WhileInFlight,
            BudgetStrategy::Unknown { kind } => Strategy::Unknown(kind@),
        }
    }
}

impl Strategy {
    /// The name of this strategy in the API.
    pub open spec fn kind(self) -> Seq<char> {
        match self {
            Strategy::TimeBased(..) => "time_based"@,
            Strategy::WhileInFlight => "while_in_flight"@,
            Strategy::Unknown(kind) => kind,
        }
    }

    /// The wire form of this strategy.
    pub open spec fn wire(self) -> Wire {
        match self {
            Strategy::TimeBased(duration, burst) => Wire {
                kind: self.kind(),
                duration_ms: Some(wire_millis(duration)),
                burst,
            },
            _ => Wire { kind: self.kind(), duration_ms: None, burst: None },
        }
    }
}

/// The whole milliseconds of a period, in the 64 bits that the API has.
pub open spec fn wire_millis(d: Duration) -> u64 {
    (d.nanos as int / NANOS_PER_MILLI as int % 0x1_0000_0000_0000_0000) as u64
}

fn millis_of(d: Duration) -> (r: u64)
    ensures
        r == wire_millis(d),
{
    (d.as_millis() % 0x1_0000_0000_0000_0000u128) as u64
}

/// Wire form of a strategy.
#[derive(Debug, Clone, PartialEq, Eq)]
pub struct StrategyWire {
    pub kind: String,
    pub duration_ms: Option<u64>,
    pub burst: Option<u32>,
}

/// Model of a wire form.
pub struct Wire {
    pub kind: Seq<char>,
    pub duration_ms: Option<u64>,
    pub burst: Option<u32>,
}

impl View for StrategyWire {
    type V = Wire;

    open spec fn view(&self) -> Wire {
        Wire { kind: self.kind@, duration_ms: self.duration_ms, burst: self.burst }
    }
}

/// The fields of the wire form of a strategy, in order.
pub open spec fn wire_fields() -> Seq<Seq<char>> {
    seq!["type"@, "duration_ms"@, "burst"@]
}

impl Wire {
    /// The strategy that a wire form stands for. A rate without a period
    /// is no rate, so it is not recognised.
    pub open spec fn strategy(self) -> Strategy {
        if self.kind == "time_based"@ {
            match self.duration_ms {
                Some(ms) => Strategy::TimeBased(
                    Duration { nanos: (ms * NANOS_PER_MILLI) as u128 },
                    self.burst,
                ),
                None => Strategy::Unknown(self.kind),
            }
        } else if self.kind == "while_in_flight"@ {
            Strategy::WhileInFlight
        } else {
            Strategy::Unknown(self.kind)
        }
    }

    /// This wire form as JSON.
    pub open spec fn json(self) -> Json {
        Json::Obj(
            field("type"@, Json::Str(self.kind)) + opt_field(
                "duration_ms"@,
                opt_int(opt_u64(self.duration_ms)),
            ) + opt_field("burst"@, opt_int(opt_u32(self.burst))),
        )
    }

    /// The wire form that a JSON value holds.
    pub open spec fn of(v: Json) -> Option<Wire> {
        let v = record(v, wire_fields(), 1);
        match (
            text_field(v, "type"@),
            opt_int_field(v, "duration_ms"@, 0, u64::MAX as int),
            opt_int_field(v, "burst"@, 0, u32::MAX as int),
        ) {
            (Some(kind), Some(duration_ms), Some(burst)) => Some(
                Wire {
                    kind,
                    duration_ms: match duration_ms {
                        Some(n) => Some(n as u64),
                        None => None,
                    },
                    burst: match burst {
                        Some(n) => Some(n as u32),
                        None => None,
                    },
                },
            ),
            _ => None,
        }
    }
}

impl BudgetStrategy {
    /// A rate limit over `duration`, with no burst ceiling.
    pub fn time_based(duration: Duration) -> (r: BudgetStrategy)
        ensures
            r == (BudgetStrategy::TimeBased { duration, burst: None }),
    {
        BudgetStrategy::TimeBased { duration, burst: None }
    }

    /// The name of this strategy in the API.
    pub fn kind(&self) -> (r: &str)
        ensures
            r@ == self@.kind(),
    {
        match self {
            BudgetStrategy::TimeBased { .. } => "time_based",
            BudgetStrategy::WhileInFlight => "while_in_flight",
            BudgetStrategy::Unknown { kind } => kind.as_str(),
        }
    }

    /// This strategy in the API.
    pub fn to_value(&self) -> (r: Value)
        ensures
            r@ == self@.wire().json(),
    {
        StrategyWire::from(self.copy()).to_value()
    }

    /// Reads a strategy from the API. Only the shape can be wrong: a
    /// strategy that is not known is no failure.
    pub fn from_value(v: &Value) -> (r: Option<BudgetStrategy>)
        ensures
            r is Some == Wire::of(v@) is Some,
            r matches Some(s) ==> s@ == Wire::of(v@)->0.strategy(),
    {
        match StrategyWire::from_value(v) {
            Some(wire) => Some(BudgetStrategy::from(wire)),
            None => None,
        }
    }

    /// A copy of this strategy.
    pub fn copy(&self) -> (r: BudgetStrategy)
        ensures
            r == *self,
    {
        match self {
            BudgetStrategy::TimeBased { duration, burst } => BudgetStrategy::TimeBased {
                duration: *duration,
                burst: *burst,
            },
            BudgetStrategy::WhileInFlight => BudgetStrategy::WhileInFlight,
            BudgetStrategy::Unknown { kind } => BudgetStrategy::Unknown { kind: kind.clone() },
        }
    }
}

/// The strategy that a wire form stands for.
pub open spec fn strategy_of(wire: StrategyWire) -> BudgetStrategy {
    if wire.kind@ == "time_based"@ {
        match wire.duration_ms {
            Some(ms) => BudgetStrategy::TimeBased {
                duration: Duration { nanos: (ms * NANOS_PER_MILLI) as u128 },
                burst: wire.burst,
            },
            None => BudgetStrategy::Unknown { kind: wire.kind },
        }
    } else if wire.kind@ == "while_in_flight"@ {
        BudgetStrategy::WhileInFlight
    } else {
        BudgetStrategy::Unknown { kind: wire.kind }
    }
}

impl From<StrategyWire> for BudgetStrategy {
    fn from(wire: StrategyWire) -> (r: BudgetStrategy)
        ensures
            r == strategy_of(wire),
            r@ == wire@.strategy(),
    {
        if same_text(wire.kind.as_str(), "time_based") {
            match wire.duration_ms {
                Some(ms) => BudgetStrategy::TimeBased {
                    duration: Duration::from_millis(ms),
                    burst: wire.burst,
                },
                None => BudgetStrategy::Unknown { kind: wire.kind },
            }
        } else if same_text(wire.kind.as_str(), "while_in_flight") {
            BudgetStrategy::WhileInFlight
        } else {
            BudgetStrategy::Unknown { kind: wire.kind }
        }
    }
}

impl vstd::std_specs::convert::FromSpecImpl<StrategyWire> for BudgetStrategy {
    open spec fn obeys_from_spec() -> bool {
        true
    }

    open spec fn from_spec(wire: StrategyWire) -> BudgetStrategy {
        strategy_of(wire)
    }
}

/// Whether `wire` is the wire form of `strategy`.
pub open spec fn writes(wire: StrategyWire, strategy: BudgetStrategy) -> bool {
    &&& wire@ == strategy@.wire()
    &&& strategy matches BudgetStrategy::Unknown { kind } ==> wire.kind == kind
}

impl From<BudgetStrategy> for StrategyWire {
    fn from(strategy: BudgetStrategy) -> (r: StrategyWire)
        ensures
            writes(r, strategy),
    {
        match strategy {
            BudgetStrategy::TimeBased { duration, burst } => StrategyWire {
                kind: "time_based".to_owned(),
                duration_ms: Some(millis_of(duration)),
                burst,
            },
            BudgetStrategy::WhileInFlight => StrategyWire {
                kind: "while_in_flight".to_owned(),
                duration_ms: None,
                burst: None,
            },
            BudgetStrategy::Unknown { kind } => StrategyWire {
                kind,
                duration_ms: None,
                burst: None,
            },
        }
    }
}

impl vstd::std_specs::convert::FromSpecImpl<BudgetStrategy> for StrategyWire {
    open spec fn obeys_from_spec() -> bool {
        false
    }

    open spec fn from_spec(strategy: BudgetStrategy) -> StrategyWire {
        arbitrary()
    }
}

impl StrategyWire {
    /// This wire form as JSON.
    pub fn to_value(&self) -> (r: Value)
        ensures
            r@ == self@.json(),
    {
        let mut out = Fields::new();
        out.text("type", self.kind.as_str());
        out.opt_number("duration_ms", self.duration_ms);
        out.opt_number(
            "burst",
            match self.burst {
                Some(n) => Some(n as u64),
                None => None,
            },
        );
        assert(out@ =~= self@.json()->Obj_0);
        out.object()
    }

    /// Reads a wire form from JSON.
    pub fn from_value(v: &Value) -> (r: Option<StrategyWire>)
        ensures
            r is Some == Wire::of(v@) is Some,
            r matches Some(w) ==> Wire::of(v@) == Some(w@),
    {
        broadcast use group_value_models;

        match v {
            Value::Array(items) => {
                let names = vec!["type", "duration_ms", "burst"];
                assert(slice_texts(names@) =~= wire_fields());
                StrategyWire::from_record(&by_position(items, &names, 1))
            },
            _ => StrategyWire::from_record(v),
        }
    }

    fn from_record(v: &Value) -> (r: Option<StrategyWire>)
        requires
            !(v@ is Arr),
        ensures
            r is Some == Wire::of(v@) is Some,
            r matches Some(w) ==> Wire::of(v@) == Some(w@),
    {
        let kind = read_text_field(v, "type");
        let duration_ms = read_opt_int_field(v, "duration_ms", 0, u64::MAX as i128);
        let burst = read_opt_int_field(v, "burst", 0, u32::MAX as i128);
        match (kind, duration_ms, burst) {
            (Some(kind), Some(duration_ms), Some(burst)) => Some(
                StrategyWire {
                    kind,
                    duration_ms: match duration_ms {
                        Some(n) => Some(n as u64),
                        None => None,
                    },
                    burst: match burst {
                        Some(n) => Some(n as u32),
                        None => None,
                    },
                },
            ),
            _ => None,
        }
    }
}

/// Whether a strategy survives being written and read: its period is a
/// whole number of milliseconds that fits the API, and an unrecognised
/// name is not one that stands for a strategy by itself.
pub open spec fn writable(s: Strategy) -> bool {
    match s {
        Strategy::TimeBased(d, _) => d.nanos % NANOS_PER_MILLI == 0 && d.nanos / NANOS_PER_MILLI
            <= u64::MAX,
        Strategy::WhileInFlight => true,
        Strategy::Unknown(kind) => kind != "while_in_flight"@,
    }
}

/// What was written as JSON reads back as the same wire form.
proof fn lemma_wire_json(w: Wire)
    ensures
        Wire::of(w.json()) == Some(w),
{
    reveal_strlit("type");
    reveal_strlit("duration_ms");
    reveal_strlit("burst");
    assert("type"@.len() == 4 && "duration_ms"@.len() == 11 && "burst"@.len() == 5);
    let a = field("type"@, Json::Str(w.kind));
    let b = opt_field("duration_ms"@, opt_int(opt_u64(w.duration_ms)));
    let c = opt_field("burst"@, opt_int(opt_u32(w.burst)));
    lemma_field(a + b, "burst"@, opt_int(opt_u32(w.burst)), "type"@);
    lemma_field(a + b, "burst"@, opt_int(opt_u32(w.burst)), "duration_ms"@);
    lemma_field(a, "duration_ms"@, opt_int(opt_u64(w.duration_ms)), "type"@);
    lemma_field(a, "duration_ms"@, opt_int(opt_u64(w.duration_ms)), "burst"@);
    let none = Seq::<(Seq<char>, Json)>::empty();
    assert(none + a =~= a);
    lemma_field(none, "type"@, Some(Json::Str(w.kind)), "duration_ms"@);
    lemma_field(none, "type"@, Some(Json::Str(w.kind)), "burst"@);
}

/// A strategy that is written and read back is the strategy it was.
pub proof fn law_strategy_round_trip(s: Strategy)
    requires
        writable(s),
    ensures
        Wire::of(s.wire().json()) == Some(s.wire()),
        s.wire().strategy() == s,
{
    lemma_wire_json(s.wire());
    reveal_strlit("time_based");
    reveal_strlit("while_in_flight");
    assert("time_based"@.len() == 10 && "while_in_flight"@.len() == 15);
}

/// A strategy that is converted to its wire form and back is the strategy
/// it was.
pub proof fn law_strategy_conversion_round_trip(strategy: BudgetStrategy, wire: StrategyWire)
    requires
        writable(strategy@),
        writes(wire, strategy),
    ensures
        strategy_of(wire) == strategy,
        strategy_of(wire)@ == strategy@.wire().strategy(),
{
    law_strategy_round_trip(strategy@);
    reveal_strlit("time_based");
    reveal_strlit("while_in_flight");
    assert("time_based"@.len() == 10 && "while_in_flight"@.len() == 15);
}

/// A strategy that the client does not recognise is written back under
/// the name that the server gave it.
pub proof fn law_unknown_strategy_keeps_its_name(kind: Seq<char>)
    ensures
        Strategy::Unknown(kind).wire() == (Wire { kind, duration_ms: None, burst: None }),
{
}

/// A budget's policy: everything needed to create one.
#[derive(Debug, Clone, PartialEq, Eq)]
pub struct BudgetPolicy {
    /// Tokens the pool holds when full.
    pub allocation: u32,
    /// How those tokens replenish.
    pub strategy: BudgetStrategy,
}

impl BudgetPolicy {
    /// A policy with the given allocation and strategy.
    pub fn new(allocation: u32, strategy: BudgetStrategy) -> (r: BudgetPolicy)
        ensures
            r == (BudgetPolicy { allocation, strategy }),
    {
        BudgetPolicy { allocation, strategy }
    }

    /// This policy in the API.
    pub open spec fn json(&self) -> Json {
        Json::Obj(
            field("allocation"@, Json::Int(self.allocation as int)) + field(
                "strategy"@,
                self.strategy@.wire().json(),
            ),
        )
    }

    /// This policy in the API.
    pub fn to_value(&self) -> (r: Value)
        ensures
            r@ == self.json(),
    {
        let mut out = Fields::new();
        out.number("allocation", self.allocation as u64);
        out.value("strategy", self.strategy.to_value());
        assert(out@ =~= self.json()->Obj_0);
        out.object()
    }

    /// A copy of this policy.
    pub fn copy(&self) -> (r: BudgetPolicy)
        ensures
            r == *self,
    {
        BudgetPolicy { allocation: self.allocation, strategy: self.strategy.copy() }
    }
}

/// A budget as returned by the server. Times are Unix milliseconds.
#[derive(Debug, Clone, PartialEq, Eq)]
pub struct Budget {
    pub key: String,
    pub allocation: u32,
    pub strategy: BudgetStrategy,
    pub created_at: u64,
    pub updated_at: u64,
}

/// Model of a budget.
pub struct BudgetModel {
    pub key: Seq<char>,
    pub allocation: u32,
    pub strategy: Strategy,
    pub created_at: u64,
    pub updated_at: u64,
}

impl View for Budget {
    type V = BudgetModel;

    open spec fn view(&self) -> BudgetModel {
        BudgetModel {
            key: self.key@,
            allocation: self.allocation,
            strategy: self.strategy@,
            created_at: self.created_at,
            updated_at: self.updated_at,
        }
    }
}

/// The strategy that the field `name` of an object holds.
pub open spec fn strategy_field(v: Json, name: Seq<char>) -> Option<Strategy> {
    match get(v, name) {
        Some(f) => match Wire::of(f) {
            Some(w) => Some(w.strategy()),
            None => None,
        },
        None => None,
    }
}

/// The fields of a budget, in order.
pub open spec fn budget_fields() -> Seq<Seq<char>> {
    seq!["key"@, "allocation"@, "strategy"@, "created_at"@, "updated_at"@]
}

impl BudgetModel {
    /// The budget that a JSON value holds.
    pub open spec fn of(v: Json) -> Option<BudgetModel> {
        let v = record(v, budget_fields(), 5);
        match (
            text_field(v, "key"@),
            int_field(v, "allocation"@, 0, u32::MAX as int),
            strategy_field(v, "strategy"@),
            int_field(v, "created_at"@, 0, u64::MAX as int),
            int_field(v, "updated_at"@, 0, u64::MAX as int),
        ) {
            (Some(key), Some(allocation), Some(strategy), Some(created_at), Some(updated_at)) =>
            Some(
                BudgetModel {
                    key,
                    allocation: allocation as u32,
                    strategy,
                    created_at: created_at as u64,
                    updated_at: updated_at as u64,
                },
            ),
            _ => None,
        }
    }
}

impl Budget {
    /// Reads a budget from the API.
    pub fn from_value(v: &Value) -> (r: Option<Budget>)
        ensures
            r is Some == BudgetModel::of(v@) is Some,
            r matches Some(b) ==> BudgetModel::of(v@) == Some(b@),
    {
        broadcast use group_value_models;

        match v {
            Value::Array(items) => {
                let names = vec!["key", "allocation", "strategy", "created_at", "updated_at"];
                assert(slice_texts(names@) =~= budget_fields());
                Budget::from_record(&by_position(items, &names, 5))
            },
            _ => Budget::from_record(v),
        }
    }

    fn from_record(v: &Value) -> (r: Option<Budget>)
        requires
            !(v@ is Arr),
        ensures
            r is Some == BudgetModel::of(v@) is Some,
            r matches Some(b) ==> BudgetModel::of(v@) == Some(b@),
    {
        let key = read_text_field(v, "key");
        let allocation = read_int_field(v, "allocation", 0, u32::MAX as i128);
        let strategy = match read_field(v, "strategy") {
            Some(f) => BudgetStrategy::from_value(f),
            None => None,
        };
        let created_at = read_int_field(v, "created_at", 0, u64::MAX as i128);
        let updated_at = read_int_field(v, "updated_at", 0, u64::MAX as i128);
        match (key, allocation, strategy, created_at, updated_at) {
            (Some(key), Some(allocation), Some(strategy), Some(created_at), Some(updated_at)) =>
            Some(
                Budget {
                    key,
                    allocation: allocation as u32,
                    strategy,
                    created_at: created_at as u64,
                    updated_at: updated_at as u64,
                },
            ),
            _ => None,
        }
    }
}

/// Whether `v` is an array of budgets.
pub open spec fn is_budgets(v: Json) -> bool {
    v matches Json::Arr(items) && forall|i: int|
        0 <= i < items.len() ==> BudgetModel::of(#[trigger] items[i]) is Some
}

/// The budgets of an array of budgets.
pub open spec fn budgets_of(v: Json) -> Seq<BudgetModel> {
    Seq::new(v->Arr_0.len(), |i: int| BudgetModel::of(v->Arr_0[i])->0)
}

/// The views of some budgets.
pub open spec fn budget_views(list: Seq<Budget>) -> Seq<BudgetModel> {
    Seq::new(list.len(), |i: int| list[i]@)
}

/// Reads the budgets out of the envelope that a listing comes in.
pub fn read_budgets(v: &Value) -> (r: Option<Vec<Budget>>)
    ensures
        r is Some == (sole(v@, "budgets"@) matches Some(f) && is_budgets(f)),
        r matches Some(list) ==> budget_views(list@) == budgets_of(sole(v@, "budgets"@)->0),
{
    broadcast use group_value_models;

    let list = match read_sole(v, "budgets") {
        Some(list) => list,
        None => {
            return None;
        },
    };
    match list {
        Value::Array(items) => {
            let ghost all = models(items@);
            let mut out: Vec<Budget> = Vec::new();
            let mut i: usize = 0;
            while i < items.len()
                invariant
                    all == models(items@),
                    list@ == Json::Arr(all),
                    sole(v@, "budgets"@) == Some(list@),
                    i <= items@.len(),
                    out@.len() == i,
                    forall|j: int|
                        0 <= j < i ==> BudgetModel::of(#[trigger] all[j]) == Some(out@[j]@),
                decreases items@.len() - i,
            {
                assert(all[i as int] == items@[i as int]@);
                match Budget::from_value(&items[i]) {
                    Some(b) => out.push(b),
                    None => {
                        assert(BudgetModel::of(list@->Arr_0[i as int]) is None);
                        return None;
                    },
                }
                i += 1;
            }
            assert(budget_views(out@) =~= budgets_of(list@));
            Some(out)
        },
        _ => None,
    }
}

/// One budget that a job draws on, as reported by the server.
#[derive(Debug, Clone, PartialEq, Eq)]
pub struct BudgetBinding {
    /// Key of the budget.
    pub key: String,
    /// Tokens debited from the budget when the job dispatches.
    pub cost: u32,
}

impl View for BudgetBinding {
    type V = (Seq<char>, u32);

    open spec fn view(&self) -> (Seq<char>, u32) {
        (self.key@, self.cost)
    }
}

/// The fields of a binding, in order.
pub open spec fn binding_fields() -> Seq<Seq<char>> {
    seq!["key"@, "cost"@]
}

/// The binding that a JSON value holds.
pub open spec fn binding_of(v: Json) -> Option<(Seq<char>, u32)> {
    let v = record(v, binding_fields(), 2);
    match (text_field(v, "key"@), int_field(v, "cost"@, 0, u32::MAX as int)) {
        (Some(key), Some(cost)) => Some((key, cost as u32)),
        _ => None,
    }
}

/// Whether `v` is an array of bindings.
pub open spec fn is_bindings(v: Json) -> bool {
    v matches Json::Arr(items) && forall|i: int|
        0 <= i < items.len() ==> binding_of(#[trigger] items[i]) is Some
}

/// The bindings of an array of bindings.
pub open spec fn bindings_of(v: Json) -> Seq<(Seq<char>, u32)> {
    Seq::new(v->Arr_0.len(), |i: int| binding_of(v->Arr_0[i])->0)
}

/// The views of some bindings.
pub open spec fn binding_views(list: Seq<BudgetBinding>) -> Seq<(Seq<char>, u32)> {
    Seq::new(list.len(), |i: int| list[i]@)
}

impl BudgetBinding {
    /// Reads a binding from the API.
    pub fn from_value(v: &Value) -> (r: Option<BudgetBinding>)
        ensures
            r is Some == binding_of(v@) is Some,
            r matches Some(b) ==> binding_of(v@) == Some(b@),
    {
        broadcast use group_value_models;

        match v {
            Value::Array(items) => {
                let names = vec!["key", "cost"];
                assert(slice_texts(names@) =~= binding_fields());
                BudgetBinding::from_record(&by_position(items, &names, 2))
            },
            _ => BudgetBinding::from_record(v),
        }
    }

    fn from_record(v: &Value) -> (r: Option<BudgetBinding>)
        requires
            !(v@ is Arr),
        ensures
            r is Some == binding_of(v@) is Some,
            r matches Some(b) ==> binding_of(v@) == Some(b@),
    {
        match (read_text_field(v, "key"), read_int_field(v, "cost", 0, u32::MAX as i128)) {
            (Some(key), Some(cost)) => Some(BudgetBinding { key, cost: cost as u32 }),
            _ => None,
        }
    }
}

/// Reads an array of bindings from the API.
pub fn read_bindings(v: &Value) -> (r: Option<Vec<BudgetBinding>>)
    ensures
        r is Some == is_bindings(v@),
        r matches Some(list) ==> binding_views(list@) == bindings_of(v@),
{
    broadcast use group_value_models;

    match v {
        Value::Array(items) => {
            let ghost all = models(items@);
            let mut out: Vec<BudgetBinding> = Vec::new();
            let mut i: usize = 0;
            while i < items.len()
                invariant
                    all == models(items@),
                    v@ == Json::Arr(all),
                    i <= items@.len(),
                    out@.len() == i,
                    forall|j: int| 0 <= j < i ==> binding_of(#[trigger] all[j]) == Some(out@[j]@),
                decreases items@.len() - i,
            {
                assert(all[i as int] == items@[i as int]@);
                match BudgetBinding::from_value(&items[i]) {
                    Some(b) => out.push(b),
                    None => {
                        return None;
                    },
                }
                i += 1;
            }
            assert(binding_views(out@) =~= bindings_of(v@));
            Some(out)
        },
        _ => None,
    }
}

/// A budget to bind a job to.
#[derive(Debug, Clone, PartialEq, Eq)]
pub struct BudgetBindingInput {
    /// Key of the budget to draw on.
    pub key: String,
    /// Tokens to debit when the job dispatches; `None` means the server's
    /// default of one.
    pub cost: Option<u32>,
    /// Policy to create the budget with if it does not exist yet.
    pub create_with: Option<BudgetPolicy>,
}

/// An optional policy as JSON.
pub open spec fn policy_json(p: Option<BudgetPolicy>) -> Option<Json> {
    match p {
        Some(p) => Some(p.json()),
        None => None,
    }
}

/// What a binding says beyond its key: what is not set is left out.
pub open spec fn binding_terms(cost: Option<u32>, create_with: Option<BudgetPolicy>) -> Seq<
    (Seq<char>, Json),
> {
    opt_field("cost"@, opt_int(opt_u32(cost))) + opt_field("create_with"@, policy_json(create_with))
}

/// Adds what a binding says beyond its key.
pub fn put_binding_terms(out: &mut Fields, cost: Option<u32>, create_with: &Option<BudgetPolicy>)
    ensures
        final(out)@ == old(out)@ + binding_terms(cost, *create_with),
{
    out.opt_number(
        "cost",
        match cost {
            Some(n) => Some(n as u64),
            None => None,
        },
    );
    out.opt_value(
        "create_with",
        match create_with {
            Some(p) => Some(p.to_value()),
            None => None,
        },
    );
    assert(out@ =~= old(out)@ + binding_terms(cost, *create_with));
}

impl BudgetBindingInput {
    /// A binding to `key` at the server's default cost.
    pub fn new(key: &str) -> (r: BudgetBindingInput)
        ensures
            r.key@ == key@,
            r.cost is None,
            r.create_with is None,
    {
        BudgetBindingInput { key: key.to_owned(), cost: None, create_with: None }
    }

    /// Sets the tokens that the job debits from the budget.
    pub fn cost(self, cost: u32) -> (r: BudgetBindingInput)
        ensures
            r == (BudgetBindingInput { cost: Some(cost), ..self }),
    {
        BudgetBindingInput { cost: Some(cost), ..self }
    }

    /// A binding to `key` that creates the budget with `policy` if it does
    /// not exist yet.
    pub fn with_policy(key: &str, policy: BudgetPolicy) -> (r: BudgetBindingInput)
        ensures
            r.key@ == key@,
            r.cost is None,
            r.create_with == Some(policy),
    {
        BudgetBindingInput { key: key.to_owned(), cost: None, create_with: Some(policy) }
    }

    /// Creates the budget with this policy if it does not exist yet.
    pub fn create_with(self, policy: BudgetPolicy) -> (r: BudgetBindingInput)
        ensures
            r == (BudgetBindingInput { create_with: Some(policy), ..self }),
    {
        BudgetBindingInput { create_with: Some(policy), ..self }
    }

    /// This binding in the API.
    pub open spec fn json(&self) -> Json {
        Json::Obj(
            field("key"@, Json::Str(self.key@)) + binding_terms(self.cost, self.create_with),
        )
    }

    /// This binding in the API.
    pub fn to_value(&self) -> (r: Value)
        ensures
            r@ == self.json(),
    {
        let mut out = Fields::new();
        out.text("key", self.key.as_str());
        put_binding_terms(&mut out, self.cost, &self.create_with);
        assert(out@ =~= self.json()->Obj_0);
        out.object()
    }

    /// A copy of this binding.
    pub fn copy(&self) -> (r: BudgetBindingInput)
        ensures
            r == *self,
    {
        BudgetBindingInput {
            key: self.key.clone(),
            cost: self.cost,
            create_with: match &self.create_with {
                Some(p) => Some(p.copy()),
                None => None,
            },
        }
    }
}

impl From<&str> for BudgetBindingInput {
    fn from(key: &str) -> (r: BudgetBindingInput)
        ensures
            r.key@ == key@,
            r.cost is None,
            r.create_with is None,
    {
        BudgetBindingInput::new(key)
    }
}

impl vstd::std_specs::convert::FromSpecImpl<&str> for BudgetBindingInput {
    open spec fn obeys_from_spec() -> bool {
        false
    }

    open spec fn from_spec(key: &str) -> BudgetBindingInput {
        arbitrary()
    }
}

impl From<String> for BudgetBindingInput {
    fn from(key: String) -> (r: BudgetBindingInput) {
        BudgetBindingInput { key, cost: None, create_with: None }
    }
}

impl vstd::std_specs::convert::FromSpecImpl<String> for BudgetBindingInput {
    open spec fn obeys_from_spec() -> bool {
        true
    }

    open spec fn from_spec(key: String) -> BudgetBindingInput {
        BudgetBindingInput { key, cost: None, create_with: None }
    }
}

/// The JSON array of some bindings.
pub open spec fn bindings_json(list: Seq<BudgetBindingInput>) -> Json {
    Json::Arr(Seq::new(list.len(), |i: int| list[i].json()))
}

/// The JSON array of some bindings.
pub fn bindings_value(list: &Vec<BudgetBindingInput>) -> (r: Value)
    ensures
        r@ == bindings_json(list@),
{
    broadcast use group_value_models;

    let mut items: Vec<Value> = Vec::new();
    let mut i: usize = 0;
    while i < list.len()
        invariant
            i <= list@.len(),
            items@.len() == i,
            forall|j: int| 0 <= j < i ==> (#[trigger] items@[j])@ == list@[j].json(),
        decreases list@.len() - i,
    {
        items.push(list[i].to_value());
        i += 1;
    }
    assert(models(items@) =~= bindings_json(list@)->Arr_0);
    Value::Array(items)
}

/// A merge patch over a budget's strategy.
#[derive(Debug, Clone, PartialEq, Eq)]
pub struct StrategyPatch {
    pub kind: Field<String>,
    pub duration_ms: Field<u64>,
    pub burst: Field<u32>,
}

impl StrategyPatch {
    /// This patch in the API.
    pub open spec fn json(&self) -> Json {
        Json::Obj(
            merge_field("type"@, field_text(self.kind)) + merge_field(
                "duration_ms"@,
                field_u64(self.duration_ms),
            ) + merge_field("burst"@, field_u32(self.burst)),
        )
    }

    fn to_value(&self) -> (r: Value)
        ensures
            r@ == self.json(),
    {
        let mut out = Fields::new();
        put_text(&mut out, "type", &self.kind);
        put_number(&mut out, "duration_ms", self.duration_ms);
        put_number(&mut out, "burst", widen_u32(self.burst));
        assert(out@ =~= self.json()->Obj_0);
        out.object()
    }

    /// Whether this patch changes nothing.
    pub open spec fn keeps_all(&self) -> bool {
        self.kind is Keep && self.duration_ms is Keep && self.burst is Keep
    }

    fn new() -> (r: StrategyPatch)
        ensures
            r.keeps_all(),
    {
        StrategyPatch { kind: Field::Keep, duration_ms: Field::Keep, burst: Field::Keep }
    }
}

/// Changes to apply to an existing budget's policy: a merge patch, so a
/// field that no setter touched is left unchanged on the server.
#[derive(Debug, Clone, PartialEq, Eq)]
pub struct BudgetPatch {
    /// New allocation; never cleared.
    pub allocation: Option<u32>,
    /// Strategy changes, themselves a merge patch; `None` changes nothing.
    pub strategy: Option<StrategyPatch>,
}

/// An optional strategy patch as JSON.
pub open spec fn strategy_patch_json(p: Option<StrategyPatch>) -> Option<Json> {
    match p {
        Some(p) => Some(p.json()),
        None => None,
    }
}

/// Whether `p` replaces a stored strategy by `s`: every field that the new
/// strategy implies is stated, so nothing is inherited.
pub open spec fn replaces_by(p: StrategyPatch, s: Strategy) -> bool {
    &&& field_text(p.kind) == Field::Replace(Json::Str(s.kind()))
    &&& match s {
        Strategy::TimeBased(duration, burst) => p.duration_ms == Field::Replace(
            wire_millis(duration),
        ) && p.burst == match burst {
            Some(n) => Field::Replace(n),
            None => Field::Clear,
        },
        _ => p.duration_ms is Keep && p.burst is Keep,
    }
}

impl BudgetPatch {
    /// The strategy changes, a patch that changes nothing where there are
    /// none yet.
    pub open spec fn strategy_or_keep(&self) -> StrategyPatch {
        match self.strategy {
            Some(p) => p,
            None => StrategyPatch {
                kind: Field::Keep,
                duration_ms: Field::Keep,
                burst: Field::Keep,
            },
        }
    }

    /// This patch in the API.
    pub open spec fn json(&self) -> Json {
        Json::Obj(
            opt_field("allocation"@, opt_int(opt_u32(self.allocation))) + opt_field(
                "strategy"@,
                strategy_patch_json(self.strategy),
            ),
        )
    }

    /// This patch in the API.
    pub fn to_value(&self) -> (r: Value)
        ensures
            r@ == self.json(),
    {
        let mut out = Fields::new();
        out.opt_number(
            "allocation",
            match self.allocation {
                Some(n) => Some(n as u64),
                None => None,
            },
        );
        out.opt_value(
            "strategy",
            match &self.strategy {
                Some(p) => Some(p.to_value()),
                None => None,
            },
        );
        assert(out@ =~= self.json()->Obj_0);
        out.object()
    }

    /// A patch that changes nothing.
    pub fn new() -> (r: BudgetPatch)
        ensures
            r == (BudgetPatch { allocation: None, strategy: None }),
    {
        BudgetPatch { allocation: None, strategy: None }
    }

    /// Sets the number of tokens that the pool holds when full.
    pub fn allocation(self, allocation: u32) -> (r: BudgetPatch)
        ensures
            r == (BudgetPatch { allocation: Some(allocation), ..self }),
    {
        BudgetPatch { allocation: Some(allocation), ..self }
    }

    /// Replaces the strategy outright. In particular a rate limit without
    /// a burst clears the stored one instead of inheriting it.
    pub fn strategy(self, strategy: BudgetStrategy) -> (r: BudgetPatch)
        ensures
            r.allocation == self.allocation,
            r.strategy is Some,
            replaces_by(r.strategy->0, strategy@),
    {
        let patch = match strategy {
            BudgetStrategy::TimeBased { duration, burst } => StrategyPatch {
                kind: Field::Replace("time_based".to_owned()),
                duration_ms: Field::Replace(millis_of(duration)),
                burst: match burst {
                    Some(n) => Field::Replace(n),
                    None => Field::Clear,
                },
            },
            BudgetStrategy::WhileInFlight => StrategyPatch {
                kind: Field::Replace("while_in_flight".to_owned()),
                duration_ms: Field::Keep,
                burst: Field::Keep,
            },
            BudgetStrategy::Unknown { kind } => StrategyPatch {
                kind: Field::Replace(kind),
                duration_ms: Field::Keep,
                burst: Field::Keep,
            },
        };
        BudgetPatch { allocation: self.allocation, strategy: Some(patch) }
    }

    fn take_strategy(strategy: Option<StrategyPatch>) -> (r: StrategyPatch)
        ensures
            r == (BudgetPatch { allocation: None, strategy }).strategy_or_keep(),
    {
        match strategy {
            Some(p) => p,
            None => StrategyPatch::new(),
        }
    }

    /// Sets the period over which the allocation replenishes, leaving the
    /// rest of the strategy alone.
    pub fn duration(self, duration: Duration) -> (r: BudgetPatch)
        ensures
            r.allocation == self.allocation,
            r.strategy == Some(
                StrategyPatch {
                    duration_ms: Field::Replace(wire_millis(duration)),
                    ..self.strategy_or_keep()
                },
            ),
    {
        let patch = BudgetPatch::take_strategy(self.strategy);
        BudgetPatch {
            allocation: self.allocation,
            strategy: Some(
                StrategyPatch { duration_ms: Field::Replace(millis_of(duration)), ..patch },
            ),
        }
    }

    /// Caps how full the pool may get, leaving the rest of the strategy
    /// alone.
    pub fn burst(self, burst: u32) -> (r: BudgetPatch)
        ensures
            r.allocation == self.allocation,
            r.strategy == Some(
                StrategyPatch { burst: Field::Replace(burst), ..self.strategy_or_keep() },
            ),
    {
        let patch = BudgetPatch::take_strategy(self.strategy);
        BudgetPatch {
            allocation: self.allocation,
            strategy: Some(StrategyPatch { burst: Field::Replace(burst), ..patch }),
        }
    }

    /// Clears the burst ceiling back to the allocation.
    pub fn clear_burst(self) -> (r: BudgetPatch)
        ensures
            r.allocation == self.allocation,
            r.strategy == Some(StrategyPatch { burst: Field::Clear, ..self.strategy_or_keep() }),
    {
        let patch = BudgetPatch::take_strategy(self.strategy);
        BudgetPatch {
            allocation: self.allocation,
            strategy: Some(StrategyPatch { burst: Field::Clear, ..patch }),
        }
    }
}

/// The outcome of changing budget bindings across a selection of jobs.
#[derive(Debug, Clone, PartialEq, Eq)]
pub struct BudgetChange {
    /// How many jobs were changed.
    pub changed: u64,
    /// Jobs that were in flight and so could not be changed.
    pub blocked: Vec<String>,
}

/// The fields of an outcome, in order.
pub open spec fn change_fields() -> Seq<Seq<char>> {
    seq!["changed"@, "blocked"@]
}

/// The outcome that a JSON value holds; no `blocked` field means that no
/// job was blocked.
pub open spec fn change_of(v: Json) -> Option<(u64, Seq<Seq<char>>)> {
    let v = record(v, change_fields(), 1);
    match int_field(v, "changed"@, 0, u64::MAX as int) {
        Some(changed) => match get(v, "blocked"@) {
            Some(f) => if is_text_list(f) {
                Some((changed as u64, text_list(f)))
            } else {
                None
            },
            None => Some((changed as u64, Seq::empty())),
        },
        None => None,
    }
}

impl BudgetChange {
    /// Reads an outcome from the API.
    pub fn from_value(v: &Value) -> (r: Option<BudgetChange>)
        ensures
            r is Some == change_of(v@) is Some,
            r matches Some(c) ==> change_of(v@) == Some((c.changed, texts(c.blocked@))),
    {
        broadcast use group_value_models;

        match v {
            Value::Array(items) => {
                let names = vec!["changed", "blocked"];
                assert(slice_texts(names@) =~= change_fields());
                BudgetChange::from_record(&by_position(items, &names, 1))
            },
            _ => BudgetChange::from_record(v),
        }
    }

    fn from_record(v: &Value) -> (r: Option<BudgetChange>)
        requires
            !(v@ is Arr),
        ensures
            r is Some == change_of(v@) is Some,
            r matches Some(c) ==> change_of(v@) == Some((c.changed, texts(c.blocked@))),
    {
        let changed = match read_int_field(v, "changed", 0, u64::MAX as i128) {
            Some(n) => n as u64,
            None => {
                return None;
            },
        };
        match read_field(v, "blocked") {
            Some(f) => match read_text_list(f) {
                Some(blocked) => Some(BudgetChange { changed, blocked }),
                None => None,
            },
            None => {
                let blocked: Vec<String> = Vec::new();
                assert(texts(blocked@) =~= Seq::empty());
                Some(BudgetChange { changed, blocked })
            },
        }
    }

    /// The outcome of a change that selects no job.
    pub fn none() -> (r: BudgetChange)
        ensures
            r.changed == 0,
            r.blocked@.len() == 0,
    {
        BudgetChange { changed: 0, blocked: Vec::new() }
    }
}

/// A fresh patch asks for nothing.
pub proof fn law_fresh_budget_patch_is_empty(p: BudgetPatch)
    requires
        p.allocation is None,
        p.strategy is None,
    ensures
        p.json() == Json::Obj(Seq::empty()),
{
    assert(p.json()->Obj_0 =~= Seq::empty());
}

} // verus!
