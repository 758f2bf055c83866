use zizq::budget::{read_budgets, StrategyWire};
use zizq::{
    Budget, BudgetBindingInput, BudgetChange, BudgetPatch, BudgetPolicy, BudgetStrategy, Duration,
    Number, Value,
};

fn value(v: &serde_json::Value) -> Value {
    match v {
        serde_json::Value::Null => Value::Null,
        serde_json::Value::Bool(b) => Value::Bool(*b),
        serde_json::Value::Number(n) => Value::Number(match (n.as_u64(), n.as_i64()) {
            (Some(u), _) => Number::PosInt(u),
            (None, Some(i)) => Number::NegInt(i),
            (None, None) => Number::Float(n.to_string()),
        }),
        serde_json::Value::String(s) => Value::String(s.clone()),
        serde_json::Value::Array(items) => Value::Array(items.iter().map(value).collect()),
        serde_json::Value::Object(map) => {
            Value::Object(map.iter().map(|(k, v)| (k.clone(), value(v))).collect())
        }
    }
}

fn json(text: &str) -> Value {
    value(&serde_json::from_str(text).unwrap())
}

fn parse(v: Value) -> BudgetStrategy {
    BudgetStrategy::from_value(&v).unwrap()
}

#[test]
fn time_based_serialises_duration_as_milliseconds() {
    assert_eq!(
        BudgetStrategy::time_based(Duration::from_secs(60)).to_value(),
        json(r#"{ "type": "time_based", "duration_ms": 60000 }"#)
    );
}

#[test]
fn burst_is_omitted_when_unset() {
    let with_burst = BudgetStrategy::TimeBased {
        duration: Duration::from_secs(60),
        burst: Some(5),
    };

    assert_eq!(
        with_burst.to_value(),
        json(r#"{ "type": "time_based", "duration_ms": 60000, "burst": 5 }"#)
    );
    let without = BudgetStrategy::time_based(Duration::from_secs(60)).to_value();
    match without {
        Value::Object(entries) => assert!(entries.iter().all(|(k, _)| k != "burst")),
        _ => panic!("expected an object"),
    }
}

#[test]
fn while_in_flight_carries_neither_duration_nor_burst() {
    assert_eq!(
        BudgetStrategy::WhileInFlight.to_value(),
        json(r#"{ "type": "while_in_flight" }"#)
    );
}

#[test]
fn strategies_round_trip() {
    for strategy in [
        BudgetStrategy::WhileInFlight,
        BudgetStrategy::time_based(Duration::from_secs(3600)),
        BudgetStrategy::TimeBased {
            duration: Duration::from_millis(1500),
            burst: Some(500),
        },
    ] {
        assert_eq!(parse(strategy.to_value()), strategy);
    }
}

#[test]
fn unrecognised_strategy_decodes_rather_than_failing() {
    assert_eq!(
        parse(json(r#"{ "type": "sliding_window", "duration_ms": 60000 }"#)),
        BudgetStrategy::Unknown {
            kind: "sliding_window".into()
        }
    );
}

#[test]
fn time_based_without_a_duration_is_unknown() {
    assert_eq!(
        parse(json(r#"{ "type": "time_based" }"#)),
        BudgetStrategy::Unknown {
            kind: "time_based".into()
        }
    );
}

#[test]
fn unknown_writes_back_the_name_the_server_gave() {
    assert_eq!(
        BudgetStrategy::Unknown {
            kind: "sliding_window".into()
        }
        .to_value(),
        json(r#"{ "type": "sliding_window" }"#)
    );
}

#[test]
fn malformed_strategies_do_not_decode() {
    for text in [
        r#"{ "duration_ms": 1 }"#,
        r#"{ "type": 1 }"#,
        r#"{ "type": "time_based", "duration_ms": "x" }"#,
        r#"{ "type": "time_based", "duration_ms": -1 }"#,
        r#"{ "type": "time_based", "duration_ms": 1, "burst": 4294967296 }"#,
        "null",
    ] {
        assert!(BudgetStrategy::from_value(&json(text)).is_none());
    }
}

#[test]
fn kinds_are_the_names_on_the_wire() {
    assert_eq!(
        BudgetStrategy::time_based(Duration::from_secs(1)).kind(),
        "time_based"
    );
    assert_eq!(BudgetStrategy::WhileInFlight.kind(), "while_in_flight");
    assert_eq!(BudgetStrategy::Unknown { kind: "x".into() }.kind(), "x");
}

#[test]
fn parts_of_a_millisecond_are_cut_off() {
    let s = BudgetStrategy::time_based(Duration { nanos: 1_999_999 });
    assert_eq!(
        s.to_value(),
        json(r#"{ "type": "time_based", "duration_ms": 1 }"#)
    );
}

#[test]
fn budget_decodes_from_the_server_shape() {
    let budget = Budget::from_value(&json(
        r#"{
            "key": "emails",
            "allocation": 100,
            "strategy": { "type": "time_based", "duration_ms": 60000, "burst": 5 },
            "created_at": 1700000000000,
            "updated_at": 1700000001000
        }"#,
    ))
    .unwrap();

    assert_eq!(budget.key, "emails");
    assert_eq!(budget.allocation, 100);
    assert_eq!(
        budget.strategy,
        BudgetStrategy::TimeBased {
            duration: Duration::from_secs(60),
            burst: Some(5),
        }
    );
    assert_eq!(budget.created_at, 1_700_000_000_000);
    assert_eq!(budget.updated_at, 1_700_000_001_000);
}

#[test]
fn binding_input_omits_what_was_never_set() {
    assert_eq!(
        BudgetBindingInput::new("emails").to_value(),
        json(r#"{ "key": "emails" }"#)
    );
}

#[test]
fn binding_input_carries_cost_and_policy() {
    let binding = BudgetBindingInput::new("emails")
        .cost(2)
        .create_with(BudgetPolicy::new(100, BudgetStrategy::WhileInFlight));

    assert_eq!(
        binding.to_value(),
        json(
            r#"{
                "key": "emails",
                "cost": 2,
                "create_with": {
                    "allocation": 100,
                    "strategy": { "type": "while_in_flight" }
                }
            }"#
        )
    );
}

#[test]
fn binding_input_accepts_borrowed_and_owned_keys() {
    let borrowed = BudgetBindingInput::from("emails").cost(2);
    let owned = BudgetBindingInput::from(format!("emails:{}", "acme"));

    assert_eq!(borrowed.key, "emails");
    assert_eq!(borrowed.cost, Some(2));
    assert_eq!(owned.key, "emails:acme");
}

#[test]
fn a_binding_carrying_a_policy_is_const_constructible() {
    let budgets = [
        BudgetBindingInput::new("emails").cost(2),
        BudgetBindingInput::with_policy(
            "stripe",
            BudgetPolicy::new(3, BudgetStrategy::WhileInFlight),
        ),
    ];

    assert_eq!(budgets[1].key, "stripe");
    assert_eq!(
        budgets[1].create_with,
        Some(BudgetPolicy::new(3, BudgetStrategy::WhileInFlight))
    );
    assert_eq!(budgets[1].cost, None);
}

#[test]
fn budget_change_decodes_and_defaults_blocked() {
    let change =
        BudgetChange::from_value(&json(r#"{ "changed": 12, "blocked": ["01K9"] }"#)).unwrap();
    assert_eq!(change.changed, 12);
    assert_eq!(change.blocked, vec!["01K9".to_string()]);

    let empty = BudgetChange::from_value(&json(r#"{ "changed": 0 }"#)).unwrap();
    assert!(empty.blocked.is_empty());
    assert!(BudgetChange::from_value(&json(r#"{ "changed": 0, "blocked": null }"#)).is_none());
}

#[test]
fn a_patch_sends_only_what_was_set() {
    assert_eq!(BudgetPatch::new().to_value(), json("{}"));
    assert_eq!(
        BudgetPatch::new().allocation(20_000).to_value(),
        json(r#"{ "allocation": 20000 }"#)
    );
    assert_eq!(
        BudgetPatch::new().clear_burst().to_value(),
        json(r#"{ "strategy": { "burst": null } }"#)
    );
    assert_eq!(
        BudgetPatch::new()
            .duration(Duration::from_secs(60))
            .burst(5)
            .to_value(),
        json(r#"{ "strategy": { "duration_ms": 60000, "burst": 5 } }"#)
    );
}

#[test]
fn replacing_the_strategy_states_every_field() {
    assert_eq!(
        BudgetPatch::new()
            .burst(9)
            .strategy(BudgetStrategy::time_based(Duration::from_secs(3600)))
            .to_value(),
        json(r#"{ "strategy": { "type": "time_based", "duration_ms": 3600000, "burst": null } }"#)
    );
    assert_eq!(
        BudgetPatch::new()
            .strategy(BudgetStrategy::WhileInFlight)
            .to_value(),
        json(r#"{ "strategy": { "type": "while_in_flight" } }"#)
    );
    assert_eq!(
        BudgetPatch::new()
            .strategy(BudgetStrategy::Unknown { kind: "x".into() })
            .to_value(),
        json(r#"{ "strategy": { "type": "x" } }"#)
    );
}

#[test]
fn listed_budgets_come_in_an_envelope() {
    let budget = r#"{ "key": "a", "allocation": 1, "strategy": { "type": "while_in_flight" },
        "created_at": 1, "updated_at": 2 }"#;
    let list = read_budgets(&json(&format!(r#"{{ "budgets": [{budget}] }}"#))).unwrap();
    assert_eq!(list.len(), 1);
    assert_eq!(list[0].key, "a");
    assert!(read_budgets(&json(r#"{ "budgets": [1] }"#)).is_none());
    assert!(read_budgets(&json("[]")).is_none());
}

#[test]
fn strategies_convert_to_their_wire_form_and_back() {
    let wire = StrategyWire::from(BudgetStrategy::TimeBased {
        duration: Duration::from_millis(1500),
        burst: Some(2),
    });
    assert_eq!((wire.kind.as_str(), wire.duration_ms, wire.burst), ("time_based", Some(1500), Some(2)));
    for strategy in [
        BudgetStrategy::WhileInFlight,
        BudgetStrategy::time_based(Duration::from_millis(7)),
        BudgetStrategy::Unknown { kind: "sliding_window".into() },
        BudgetStrategy::Unknown { kind: "time_based".into() },
    ] {
        let wire = StrategyWire::from(strategy.copy());
        assert_eq!(BudgetStrategy::from(wire), strategy);
    }
}

#[test]
fn budgets_read_from_arrays_by_position() {
    assert_eq!(
        parse(json(r#"["time_based", 1500, 2]"#)),
        BudgetStrategy::TimeBased {
            duration: Duration::from_millis(1500),
            burst: Some(2),
        }
    );
    assert_eq!(parse(json(r#"["while_in_flight"]"#)), BudgetStrategy::WhileInFlight);
    let list = read_budgets(&json(r#"[[["k", 3, ["while_in_flight"], 1, 2]]]"#)).unwrap();
    assert_eq!((list[0].key.as_str(), list[0].allocation), ("k", 3));
    assert_eq!((list[0].created_at, list[0].updated_at), (1, 2));
    assert!(read_budgets(&json(r#"[[["k", 3, ["while_in_flight"], 1]]]"#)).is_none());
    let change = BudgetChange::from_value(&json(r#"[4, ["a"]]"#)).unwrap();
    assert_eq!((change.changed, change.blocked), (4, vec!["a".to_string()]));
    assert_eq!(BudgetChange::from_value(&json("[4]")).unwrap().changed, 4);
    assert!(BudgetChange::from_value(&json("[]")).is_none());
}
