use slumber::http::{Request, RequestRecord, Response, ResponseSlot, TransportError};
use slumber::orchestrator::{RequestError, RequestOrchestrator, RequestState};

fn record(recipe_id: &str, start_ms: u64, end_ms: u64) -> RequestRecord {
    RequestRecord {
        request: Request {
            recipe_id: recipe_id.to_owned(),
            method: "GET".to_owned(),
            url: "http://localhost".to_owned(),
            headers: Vec::new(),
            body: None,
            response: ResponseSlot::new(),
        },
        outcome: Ok(Response {
            status: 200,
            headers: Vec::new(),
            content: "ok".to_owned(),
        }),
        start_ms,
        end_ms,
    }
}

fn transport_error() -> RequestError {
    RequestError::HttpTransport(TransportError { message: "connection refused".to_owned() })
}

#[test]
fn test_start_request_enters_loading() {
    let mut orchestrator = RequestOrchestrator::new();
    assert!(orchestrator.state_for("recipe1").is_none());
    assert!(orchestrator.can_send_request("recipe1"));

    orchestrator.start_request_at("recipe1".to_owned(), 100);
    match orchestrator.state_for("recipe1") {
        Some(RequestState::Loading { start_ms }) => assert_eq!(*start_ms, 100),
        other => panic!("expected Loading, got {other:?}"),
    }
    assert!(!orchestrator.can_send_request("recipe1"));
    // Other recipes are untouched
    assert!(orchestrator.can_send_request("recipe2"));
    assert!(orchestrator.state_for("recipe2").is_none());
}

#[test]
fn test_second_start_request_rejected() {
    let mut orchestrator = RequestOrchestrator::new();
    orchestrator.start_request_at("recipe1".to_owned(), 100);
    // A second start while loading is rejected: the original start time stays
    orchestrator.start_request_at("recipe1".to_owned(), 999);
    match orchestrator.state_for("recipe1") {
        Some(RequestState::Loading { start_ms }) => assert_eq!(*start_ms, 100),
        other => panic!("expected Loading, got {other:?}"),
    }
}

#[test]
fn test_finish_request_stores_response() {
    let mut orchestrator = RequestOrchestrator::new();
    orchestrator.start_request_at("recipe1".to_owned(), 100);
    orchestrator.finish_request(record("recipe1", 100, 350));
    match orchestrator.state_for("recipe1") {
        Some(state @ RequestState::Response(record)) => {
            assert_eq!(record.request.recipe_id, "recipe1");
            assert_eq!(state.start_time(), 100);
            assert_eq!(state.duration_at(9_999), 250);
        }
        other => panic!("expected Response, got {other:?}"),
    }
    // The recipe is sendable again
    assert!(orchestrator.can_send_request("recipe1"));
}

#[test]
fn test_finish_request_while_not_loading_is_dropped() {
    let mut orchestrator = RequestOrchestrator::new();
    // Never started: the completion is dropped
    orchestrator.finish_request(record("recipe1", 100, 350));
    assert!(orchestrator.state_for("recipe1").is_none());

    // Terminal state: a stray completion leaves it untouched
    orchestrator.start_request_at("recipe1".to_owned(), 100);
    orchestrator.fail_request_at("recipe1", transport_error(), 400);
    orchestrator.finish_request(record("recipe1", 500, 600));
    match orchestrator.state_for("recipe1") {
        Some(RequestState::Error { start_ms, end_ms, .. }) => {
            assert_eq!((*start_ms, *end_ms), (100, 400));
        }
        other => panic!("expected Error, got {other:?}"),
    }
}

#[test]
fn test_fail_request_keeps_start_time() {
    let mut orchestrator = RequestOrchestrator::new();
    orchestrator.start_request_at("recipe1".to_owned(), 100);
    orchestrator.fail_request_at("recipe1", transport_error(), 450);
    match orchestrator.state_for("recipe1") {
        Some(state @ RequestState::Error { error, start_ms, end_ms }) => {
            assert_eq!((*start_ms, *end_ms), (100, 450));
            assert_eq!(state.duration_at(9_999), 350);
            match error {
                RequestError::HttpTransport(e) => assert_eq!(e.message, "connection refused"),
                other => panic!("expected HttpTransport, got {other:?}"),
            }
        }
        other => panic!("expected Error, got {other:?}"),
    }
    assert!(orchestrator.can_send_request("recipe1"));
}

#[test]
fn test_fail_request_while_not_loading_is_dropped() {
    let mut orchestrator = RequestOrchestrator::new();
    orchestrator.fail_request_at("recipe1", transport_error(), 450);
    assert!(orchestrator.state_for("recipe1").is_none());

    orchestrator.start_request_at("recipe1".to_owned(), 100);
    orchestrator.finish_request(record("recipe1", 100, 350));
    orchestrator.fail_request_at("recipe1", transport_error(), 999);
    match orchestrator.state_for("recipe1") {
        Some(RequestState::Response(_)) => {}
        other => panic!("expected Response, got {other:?}"),
    }
}

#[test]
fn test_terminal_state_superseded_by_new_start() {
    let mut orchestrator = RequestOrchestrator::new();
    orchestrator.start_request_at("recipe1".to_owned(), 100);
    orchestrator.finish_request(record("recipe1", 100, 350));
    // A fresh start overwrites the terminal state
    orchestrator.start_request_at("recipe1".to_owned(), 400);
    match orchestrator.state_for("recipe1") {
        Some(RequestState::Loading { start_ms }) => assert_eq!(*start_ms, 400),
        other => panic!("expected Loading, got {other:?}"),
    }
}

#[test]
fn test_start_request_wall_clock() {
    let mut orchestrator = RequestOrchestrator::new();
    orchestrator.start_request("recipe1".to_owned());
    match orchestrator.state_for("recipe1") {
        Some(state @ RequestState::Loading { .. }) => {
            // The wall clock is far past the epoch
            assert!(state.start_time() > 0);
        }
        other => panic!("expected Loading, got {other:?}"),
    }
}

#[test]
fn test_fail_request_wall_clock() {
    let mut orchestrator = RequestOrchestrator::new();
    orchestrator.start_request_at("recipe1".to_owned(), 1);
    orchestrator.fail_request("recipe1", transport_error());
    match orchestrator.state_for("recipe1") {
        Some(RequestState::Error { start_ms, end_ms, .. }) => {
            assert_eq!(*start_ms, 1);
            assert!(*end_ms > 0);
        }
        other => panic!("expected Error, got {other:?}"),
    }
}

#[test]
fn test_loading_duration_is_running_total() {
    let mut orchestrator = RequestOrchestrator::new();
    orchestrator.start_request_at("recipe1".to_owned(), 100);
    let state = orchestrator.state_for("recipe1").unwrap();
    assert_eq!(state.duration_at(100), 0);
    assert_eq!(state.duration_at(260), 160);
    assert!(state.is_loading());
}
