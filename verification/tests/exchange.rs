use chicken_coop::error::{Error, RequestFailure};
use chicken_coop::exchange::{on_event, Action, Event, Phase, FIRST_SUCCESS, LAST_SUCCESS};

#[test]
fn not_found_fails_the_request_and_never_the_decoding() {
    let (phase, action) = on_event(Phase::AwaitingResponse, Event::Responded(404));
    assert_eq!(phase, Phase::Done);
    assert!(matches!(action, Action::Fail(Error::RequestFailed(RequestFailure::Status(404)))));

    let (phase, action) = on_event(phase, Event::Malformed("missing field".to_string()));
    assert_eq!(phase, Phase::Done);
    assert!(matches!(action, Action::Ignore));
    let (phase, action) = on_event(phase, Event::Decoded);
    assert_eq!(phase, Phase::Done);
    assert!(matches!(action, Action::Ignore));
}

#[test]
fn a_body_of_the_wrong_shape_fails_the_decoding() {
    let (phase, action) = on_event(Phase::AwaitingResponse, Event::Responded(200));
    assert_eq!(phase, Phase::AwaitingBody);
    assert!(matches!(action, Action::ReadBody));

    let (phase, action) = on_event(phase, Event::Malformed("missing field `cve`".to_string()));
    assert_eq!(phase, Phase::Done);
    match action {
        Action::Fail(Error::DecodeFailed(reason)) => assert_eq!(reason, "missing field `cve`"),
        other => panic!("unexpected: {other:?}"),
    }
}

#[test]
fn a_body_of_the_right_shape_is_delivered() {
    let (phase, _) = on_event(Phase::AwaitingResponse, Event::Responded(200));
    let (phase, action) = on_event(phase, Event::Decoded);
    assert_eq!(phase, Phase::Done);
    assert!(matches!(action, Action::Deliver));
}

#[test]
fn every_status_outside_the_range_of_success_fails_the_request() {
    assert_eq!((FIRST_SUCCESS, LAST_SUCCESS), (200, 299));
    for status in [0u16, 100, 199, 300, 301, 304, 399, 400, 401, 404, 418, 499, 500, 503, 599, 600, 999, u16::MAX] {
        let (phase, action) = on_event(Phase::AwaitingResponse, Event::Responded(status));
        assert_eq!(phase, Phase::Done);
        match action {
            Action::Fail(Error::RequestFailed(RequestFailure::Status(s))) => assert_eq!(s, status),
            other => panic!("unexpected: {other:?}"),
        }
    }
}

#[test]
fn every_status_of_success_asks_for_the_body() {
    for status in [200u16, 201, 204, 250, 299] {
        let (phase, action) = on_event(Phase::AwaitingResponse, Event::Responded(status));
        assert_eq!(phase, Phase::AwaitingBody);
        assert!(matches!(action, Action::ReadBody));
    }
}

#[test]
fn a_failed_connection_fails_the_request_with_its_cause() {
    for phase in [Phase::AwaitingResponse, Phase::AwaitingBody] {
        let (phase, action) = on_event(phase, Event::Failed("connection reset".to_string()));
        assert_eq!(phase, Phase::Done);
        match action {
            Action::Fail(Error::RequestFailed(RequestFailure::Transport(cause))) => {
                assert_eq!(cause, "connection reset")
            }
            other => panic!("unexpected: {other:?}"),
        }
    }
}

#[test]
fn events_that_do_not_belong_to_the_phase_are_ignored() {
    let (phase, action) = on_event(Phase::AwaitingResponse, Event::Decoded);
    assert_eq!(phase, Phase::AwaitingResponse);
    assert!(matches!(action, Action::Ignore));
    let (phase, action) = on_event(Phase::AwaitingResponse, Event::Malformed("x".to_string()));
    assert_eq!(phase, Phase::AwaitingResponse);
    assert!(matches!(action, Action::Ignore));
    let (phase, action) = on_event(Phase::AwaitingBody, Event::Responded(404));
    assert_eq!(phase, Phase::AwaitingBody);
    assert!(matches!(action, Action::Ignore));
    let (phase, action) = on_event(Phase::Done, Event::Failed("late".to_string()));
    assert_eq!(phase, Phase::Done);
    assert!(matches!(action, Action::Ignore));
    let (phase, action) = on_event(Phase::Done, Event::Responded(200));
    assert_eq!(phase, Phase::Done);
    assert!(matches!(action, Action::Ignore));
}
