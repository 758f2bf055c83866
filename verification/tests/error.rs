use zizq::ZizqError;

fn response(status: u16) -> ZizqError {
    ZizqError::Response {
        status,
        message: String::new(),
    }
}

fn transport() -> ZizqError {
    let e = reqwest::Client::new().get("http://").build().unwrap_err();
    ZizqError::Transport(e)
}

#[test]
fn status_is_only_carried_by_response() {
    assert_eq!(response(404).status(), Some(404));
    assert_eq!(ZizqError::MissingUrl.status(), None);
    assert_eq!(ZizqError::Encode("bad".into()).status(), None);
}

#[test]
fn named_statuses_match_only_themselves() {
    assert!(response(404).is_not_found());
    assert!(!response(409).is_not_found());

    assert!(response(409).is_conflict());
    assert!(!response(404).is_conflict());

    assert!(response(403).is_forbidden());
    assert!(!response(401).is_forbidden());
}

#[test]
fn invalid_request_covers_both_rejection_statuses() {
    assert!(response(400).is_invalid_request());
    assert!(response(422).is_invalid_request());
    assert!(!response(409).is_invalid_request());
}

#[test]
fn unsupported_format_covers_both_negotiation_statuses() {
    assert!(response(406).is_unsupported_format());
    assert!(response(415).is_unsupported_format());
    assert!(!response(400).is_unsupported_format());
}

#[test]
fn error_classes_stop_at_their_boundaries() {
    assert!(!response(399).is_client_error());
    assert!(response(400).is_client_error());
    assert!(response(499).is_client_error());
    assert!(!response(500).is_client_error());

    assert!(!response(499).is_server_error());
    assert!(response(500).is_server_error());
    assert!(response(599).is_server_error());
    assert!(!response(600).is_server_error());
}

#[test]
fn only_transport_and_server_errors_are_retryable() {
    assert!(response(500).is_retryable());
    assert!(response(503).is_retryable());

    assert!(!response(409).is_retryable());
    assert!(!response(422).is_retryable());
    assert!(!ZizqError::Encode("bad".into()).is_retryable());
    assert!(!ZizqError::Decode("bad".into()).is_retryable());
    assert!(!ZizqError::MissingUrl.is_retryable());
}

#[test]
fn transport_errors_are_transient() {
    assert!(transport().is_transport());
    assert!(transport().is_retryable());
    assert_eq!(transport().status(), None);
}
