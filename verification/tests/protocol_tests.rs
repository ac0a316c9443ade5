use lsp_server::{ErrorCode, RequestId};
use nil::event::{diagnostics_event, response_event, Event};
use nil::protocol::{
    cancellation, method_not_found, panic_failure, panic_place, result_to_response,
    shutdown_rejection, HandlerError, LspError, PanicPlace,
};
use serde_json::Value;

#[test]
fn ok_result_becomes_result() {
    let response = result_to_response(RequestId::from(1), Ok(Value::from(5)));
    assert_eq!(response.id, RequestId::from(1));
    assert_eq!(response.result, Some(Value::from(5)));
    assert!(response.error.is_none());
}

#[test]
fn cancelled_becomes_server_cancelled() {
    let response = result_to_response(RequestId::from(2), Err(HandlerError::Cancelled));
    let error = response.error.unwrap();
    assert_eq!(response.id, RequestId::from(2));
    assert!(response.result.is_none());
    assert_eq!(error.code, -32802);
    assert_eq!(error.message, "Cancelled");
    assert!(error.data.is_none());
}

#[test]
fn lsp_error_keeps_its_code() {
    let failure = LspError { code: ErrorCode::RequestFailed, message: "No rename here".to_owned() };
    let response = result_to_response(RequestId::from(3), Err(HandlerError::Lsp(failure)));
    let error = response.error.unwrap();
    assert_eq!(error.code, -32803);
    assert_eq!(error.message, "No rename here");
    let failure = LspError { code: ErrorCode::ContentModified, message: "Moved".to_owned() };
    let response = result_to_response(RequestId::from(3), Err(HandlerError::Lsp(failure)));
    assert_eq!(response.error.unwrap().code, -32801);
}

#[test]
fn every_error_code_has_its_number() {
    let codes = [
        (ErrorCode::ParseError, -32700),
        (ErrorCode::InvalidRequest, -32600),
        (ErrorCode::MethodNotFound, -32601),
        (ErrorCode::InvalidParams, -32602),
        (ErrorCode::InternalError, -32603),
        (ErrorCode::ServerErrorStart, -32099),
        (ErrorCode::ServerErrorEnd, -32000),
        (ErrorCode::ServerNotInitialized, -32002),
        (ErrorCode::UnknownErrorCode, -32001),
        (ErrorCode::RequestCanceled, -32800),
        (ErrorCode::ContentModified, -32801),
        (ErrorCode::ServerCancelled, -32802),
        (ErrorCode::RequestFailed, -32803),
    ];
    for (code, number) in codes {
        let failure = LspError { code, message: String::new() };
        let response = result_to_response(RequestId::from(0), Err(HandlerError::Lsp(failure)));
        assert_eq!(response.error.unwrap().code, number);
    }
}

#[test]
fn undecodable_params_become_invalid_params() {
    let failure = HandlerError::InvalidParams("missing field `position`".to_owned());
    let response = result_to_response(RequestId::from("a".to_owned()), Err(failure));
    let error = response.error.unwrap();
    assert_eq!(response.id, RequestId::from("a".to_owned()));
    assert_eq!(error.code, -32602);
    assert_eq!(error.message, "missing field `position`");
}

#[test]
fn other_errors_become_internal_error() {
    let failure = HandlerError::Other("outer: inner".to_owned());
    let response = result_to_response(RequestId::from(4), Err(failure));
    let error = response.error.unwrap();
    assert_eq!(error.code, -32603);
    assert_eq!(error.message, "outer: inner");
}

fn place(place: &str, backtrace: &str) -> Option<PanicPlace> {
    Some(PanicPlace { place: place.to_owned(), backtrace: backtrace.to_owned() })
}

#[test]
fn handler_panic() {
    let failure =
        panic_failure("textDocument/completion", Some("boom"), place("src/handler.rs:10:5", "none"));
    let response = result_to_response(RequestId::from(9), Err(failure));
    let error = response.error.unwrap();
    assert_eq!(error.code, -32603);
    assert!(error.message.starts_with("Panicked in textDocument/completion: boom"));
    assert!(error.message.contains("boom"));
    assert!(error.message.contains("Location:"));
    assert_eq!(
        error.message,
        "Panicked in textDocument/completion: boom\nLocation: src/handler.rs:10:5\nBacktrace: none"
    );
}

#[test]
fn panic_without_reason_or_location() {
    match panic_failure("diagnostics", None, None) {
        HandlerError::Other(text) => {
            assert_eq!(text, "Panicked in diagnostics: unknown\nLocation: unknown")
        }
        other => panic!("unexpected {other:?}"),
    }
    match panic_failure("diagnostics", Some("boom"), None) {
        HandlerError::Other(text) => {
            assert_eq!(text, "Panicked in diagnostics: boom\nLocation: unknown")
        }
        other => panic!("unexpected {other:?}"),
    }
    match panic_failure("diagnostics", None, place("", "")) {
        HandlerError::Other(text) => {
            assert_eq!(text, "Panicked in diagnostics: unknown\nLocation: \nBacktrace: ")
        }
        other => panic!("unexpected {other:?}"),
    }
}

#[test]
fn panic_place_lines() {
    assert_eq!(panic_place(&None), "Location: unknown");
    assert_eq!(panic_place(&place("a.rs:1:2", "0: main")), "Location: a.rs:1:2\nBacktrace: 0: main");
}

#[test]
fn fixed_replies() {
    let rejected = shutdown_rejection(RequestId::from(4));
    let error = rejected.error.unwrap();
    assert_eq!(rejected.id, RequestId::from(4));
    assert!(rejected.result.is_none());
    assert_eq!(error.code, -32600);
    assert_eq!(error.message, "Shutdown already requested.");

    let unknown = method_not_found(RequestId::from(5));
    let error = unknown.error.unwrap();
    assert_eq!(unknown.id, RequestId::from(5));
    assert_eq!(error.code, -32601);
    assert_eq!(error.message, "");

    let cancelled = cancellation(RequestId::from(6));
    let error = cancelled.error.unwrap();
    assert_eq!(cancelled.id, RequestId::from(6));
    assert_eq!(error.code, -32802);
    assert_eq!(error.message, "Cancelled");
}

#[test]
fn worker_events() {
    match response_event(RequestId::from(1), Err(HandlerError::Cancelled)) {
        Event::Response(response) => assert_eq!(response.error.unwrap().code, -32802),
        other => panic!("unexpected {other:?}"),
    }
    let one = lsp_types::Diagnostic::new_simple(lsp_types::Range::default(), "unused".to_owned());
    match diagnostics_event("file:///w/a.nix".to_owned(), 3, Some(Ok(vec![one.clone()]))) {
        Event::Diagnostics { uri, version, diagnostics } => {
            assert_eq!(uri, "file:///w/a.nix");
            assert_eq!(version, 3);
            assert_eq!(diagnostics, vec![one.clone()]);
        }
        other => panic!("unexpected {other:?}"),
    }
    match diagnostics_event("file:///w/a.nix".to_owned(), 3, None) {
        Event::Diagnostics { diagnostics, .. } => assert!(diagnostics.is_empty()),
        other => panic!("unexpected {other:?}"),
    }
    let failed = Some(Err(HandlerError::Other("boom".to_owned())));
    match diagnostics_event("file:///w/a.nix".to_owned(), 4, failed) {
        Event::Diagnostics { version, diagnostics, .. } => {
            assert_eq!(version, 4);
            assert!(diagnostics.is_empty());
        }
        other => panic!("unexpected {other:?}"),
    }
}
