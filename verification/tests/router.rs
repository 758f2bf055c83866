use zizq::router::{payload_error, payload_of};
use zizq::{Router, State, Value};

#[test]
fn jobs_go_to_the_handler_of_their_type() {
    let r = Router::new().route("a", 1).route("b", 2);
    assert_eq!(r.handle("a").unwrap(), &1);
    assert_eq!(r.handle("b").unwrap(), &2);
}

#[test]
fn the_last_route_of_a_type_wins() {
    let r = Router::new().route("a", 1).route("b", 2).route("a", 3);
    assert_eq!(r.handle("a").unwrap(), &3);
    assert_eq!(r.handle("b").unwrap(), &2);
    assert_eq!(r.names(), ["a", "b"]);
}

#[test]
fn a_job_without_a_route_fails() {
    let r: Router<(), u32> = Router::new();
    let e = r.handle("un\"known").unwrap_err();
    assert_eq!(e.error_type, "zizq::router::NoRouteError");
    assert_eq!(
        e.message,
        "no route registered for job type \"un\\\"known\""
    );
}

#[test]
fn names_are_listed_in_order() {
    let r = Router::with_state(State(5))
        .route("send_email", 1)
        .route("charge", 2);
    assert_eq!(r.names(), ["charge", "send_email"]);
    assert_eq!(r.state.0, 5);
}

#[test]
fn a_job_without_a_payload_hands_out_null() {
    assert_eq!(payload_of(None), Value::Null);
    assert_eq!(payload_of(Some(Value::Bool(true))), Value::Bool(true));
}

#[test]
fn payloads_of_the_wrong_type_say_so() {
    let e = payload_error("app::SendEmail", "missing field `to`");
    assert_eq!(e.error_type, "zizq::router::PayloadDeserializeError");
    assert_eq!(
        e.message,
        "failed to deserialise job payload as app::SendEmail: missing field `to`"
    );
}
