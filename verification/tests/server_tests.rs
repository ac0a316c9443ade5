use lsp_server::{Message, Notification, Request, RequestId, Response};
use lsp_types::{Diagnostic, Position, Range, TextDocumentContentChangeEvent};
use nil::config::{Setting, Settings};
use nil::event::{response_event, Effect, Event, MessageLevel};
use nil::protocol::{panic_failure, PanicPlace};
use nil::flake::{FlakeProbe, ResolvedInput, ResolvedInputs};
use nil::queue::Pending;
use nil::route::HandlerKind;
use nil::server::{Flow, Input, Noted, Server, ServerError, SettingsFailure};
use nil::vfs::VfsError;
use serde_json::Value;

const URI: &str = "file:///w/a.nix";

fn json(text: &str) -> Value {
    serde_json::from_str(text).unwrap()
}

fn server() -> Server {
    Server::new("/w".to_owned())
}

fn did_open(uri: &str, text: &str) -> Notification {
    let mut document = serde_json::Map::new();
    document.insert("uri".to_owned(), Value::from(uri));
    document.insert("languageId".to_owned(), Value::from("nix"));
    document.insert("version".to_owned(), Value::from(1));
    document.insert("text".to_owned(), Value::from(text));
    let mut params = serde_json::Map::new();
    params.insert("textDocument".to_owned(), Value::Object(document));
    Notification { method: "textDocument/didOpen".to_owned(), params: Value::Object(params) }
}

fn did_close(uri: &str) -> Notification {
    let mut document = serde_json::Map::new();
    document.insert("uri".to_owned(), Value::from(uri));
    let mut params = serde_json::Map::new();
    params.insert("textDocument".to_owned(), Value::Object(document));
    Notification { method: "textDocument/didClose".to_owned(), params: Value::Object(params) }
}

fn cancel(id: i32) -> Notification {
    let mut params = serde_json::Map::new();
    params.insert("id".to_owned(), Value::from(id));
    Notification { method: "$/cancelRequest".to_owned(), params: Value::Object(params) }
}

fn request(id: i32, method: &str) -> Request {
    Request { id: RequestId::from(id), method: method.to_owned(), params: Value::Null }
}

fn reply(id: i32) -> Response {
    Response { id: RequestId::from(id), result: Some(Value::from("done")), error: None }
}

fn whole(text: &str) -> TextDocumentContentChangeEvent {
    TextDocumentContentChangeEvent { range: None, range_length: None, text: text.to_owned() }
}

fn edit(from: (u32, u32), to: (u32, u32), text: &str) -> TextDocumentContentChangeEvent {
    TextDocumentContentChangeEvent {
        range: Some(Range::new(Position::new(from.0, from.1), Position::new(to.0, to.1))),
        range_length: None,
        text: text.to_owned(),
    }
}

fn finding(message: &str) -> Diagnostic {
    Diagnostic::new_simple(Range::default(), message.to_owned())
}

fn content(server: &Server, uri: &str) -> Vec<u8> {
    let file = server.vfs().file_for_uri(uri).unwrap();
    server.vfs().content_for_file(file).clone()
}

#[test]
fn new_server_is_idle() {
    let mut server = server();
    assert!(!server.is_shutdown());
    assert_eq!(server.version(), 0);
    assert_eq!(server.vfs().file_count(), 0);
    assert_eq!(server.config().root_path, "/w");
    assert_eq!(server.config().nix_binary, "nix");
    assert!(server.take_effects().is_empty());
}

#[test]
fn open_and_diagnose() {
    let mut server = server();
    let noted = server.dispatch_notification(did_open(URI, "{ x = 1; }"));
    assert_eq!(noted, Ok(Noted::Handled { skipped_edits: 0 }));
    assert!(server.is_open(&URI.to_owned()));
    assert_eq!(content(&server, URI), b"{ x = 1; }".to_vec());

    let effects = server.take_effects();
    assert_eq!(effects.len(), 2);
    match &effects[0] {
        Effect::ApplyChange(change) => {
            assert_eq!(change.file_changes.len(), 1);
            assert_eq!(*change.file_changes[0].text, b"{ x = 1; }".to_vec());
        }
        other => panic!("unexpected {other:?}"),
    }
    let version = match &effects[1] {
        Effect::Diagnose { uri, version, snapshot } => {
            assert_eq!(uri, URI);
            assert_eq!(*version, 1);
            let file = snapshot.vfs().file_for_uri(URI).unwrap();
            assert_eq!(snapshot.vfs().content_for_file(file), &b"{ x = 1; }".to_vec());
            assert!(snapshot.wants_diagnostics(uri));
            *version
        }
        other => panic!("unexpected {other:?}"),
    };

    let event = Event::Diagnostics { uri: URI.to_owned(), version, diagnostics: Vec::new() };
    assert_eq!(server.dispatch_event(event), Ok(()));
    let effects = server.take_effects();
    assert_eq!(effects.len(), 1);
    match &effects[0] {
        Effect::PublishDiagnostics { uri, diagnostics } => {
            assert_eq!(uri, URI);
            assert!(diagnostics.is_empty());
        }
        other => panic!("unexpected {other:?}"),
    }
    assert_eq!(server.diagnostics_version(&URI.to_owned()), Some(1));
}

#[test]
fn cancellation_race() {
    let mut server = server();
    server.dispatch_request(request(7, "textDocument/completion"));
    let effects = server.take_effects();
    assert_eq!(effects.len(), 1);
    match &effects[0] {
        Effect::RunHandler { handler, request, .. } => {
            assert_eq!(*handler, HandlerKind::Completion);
            assert_eq!(request.id, RequestId::from(7));
        }
        other => panic!("unexpected {other:?}"),
    }

    assert_eq!(server.dispatch_notification(cancel(7)), Ok(Noted::Handled { skipped_edits: 0 }));
    let effects = server.take_effects();
    assert_eq!(effects.len(), 1);
    match &effects[0] {
        Effect::Respond(response) => {
            assert_eq!(response.id, RequestId::from(7));
            assert!(response.result.is_none());
            assert_eq!(response.error.as_ref().unwrap().code, -32802);
        }
        other => panic!("unexpected {other:?}"),
    }

    assert_eq!(server.dispatch_event(Event::Response(reply(7))), Ok(()));
    assert!(server.take_effects().is_empty());
}

#[test]
fn shutdown_ordering() {
    let mut server = server();
    server.dispatch_request(request(3, "shutdown"));
    assert!(server.is_shutdown());
    let effects = server.take_effects();
    assert_eq!(effects.len(), 1);
    match &effects[0] {
        Effect::Respond(response) => {
            assert_eq!(response.id, RequestId::from(3));
            assert_eq!(response.result, Some(Value::Null));
            assert!(response.error.is_none());
        }
        other => panic!("unexpected {other:?}"),
    }

    server.dispatch_request(request(4, "textDocument/hover"));
    let effects = server.take_effects();
    assert_eq!(effects.len(), 1);
    match &effects[0] {
        Effect::Respond(response) => {
            assert_eq!(response.id, RequestId::from(4));
            let error = response.error.as_ref().unwrap();
            assert_eq!(error.code, -32600);
            assert_eq!(error.message, "Shutdown already requested.");
        }
        other => panic!("unexpected {other:?}"),
    }
    assert_eq!(server.dispatch_event(Event::Response(reply(4))), Ok(()));
    assert!(server.take_effects().is_empty());
}

#[test]
fn shutdown_with_parameters_is_refused() {
    let mut server = server();
    let mut bad = request(3, "shutdown");
    bad.params = Value::from(5);
    server.dispatch_request(bad);
    assert!(!server.is_shutdown());
    let effects = server.take_effects();
    match &effects[0] {
        Effect::Respond(response) => {
            let error = response.error.as_ref().unwrap();
            assert_eq!(error.code, -32602);
            assert!(error.message.contains("expected unit"));
        }
        other => panic!("unexpected {other:?}"),
    }
}

#[test]
fn stale_diagnostics() {
    let mut server = server();
    server.dispatch_notification(did_open(URI, "{ }")).unwrap();
    let uri = URI.to_owned();
    assert_eq!(server.on_did_change(&uri, vec![whole("{ a = 1; }")]), 0);
    assert_eq!(server.on_did_change(&uri, vec![whole("{ a = 2; }")]), 0);
    assert_eq!(server.on_did_change(&uri, vec![whole("{ a = 3; }")]), 0);
    assert_eq!(server.on_did_change(&uri, vec![whole("{ a = 4; }")]), 0);
    assert_eq!(server.on_did_change(&uri, vec![whole("{ a = 5; }")]), 0);
    assert_eq!(server.version(), 6);
    let effects = server.take_effects();
    let versions: Vec<u64> = effects
        .iter()
        .filter_map(|effect| match effect {
            Effect::Diagnose { version, .. } => Some(*version),
            _ => None,
        })
        .collect();
    assert_eq!(versions, vec![1, 2, 3, 4, 5, 6]);

    let newer = Event::Diagnostics { uri: uri.clone(), version: 6, diagnostics: vec![finding("six")] };
    let older = Event::Diagnostics { uri: uri.clone(), version: 5, diagnostics: vec![finding("five")] };
    server.dispatch_event(newer).unwrap();
    server.dispatch_event(older).unwrap();
    let effects = server.take_effects();
    assert_eq!(effects.len(), 1);
    match &effects[0] {
        Effect::PublishDiagnostics { uri, diagnostics } => {
            assert_eq!(uri, URI);
            assert_eq!(diagnostics, &vec![finding("six")]);
        }
        other => panic!("unexpected {other:?}"),
    }
    assert_eq!(server.diagnostics_version(&uri), Some(6));
}

#[test]
fn published_versions_increase() {
    let mut server = server();
    server.dispatch_notification(did_open(URI, "{ }")).unwrap();
    server.take_effects();
    let mut published = Vec::new();
    for version in [3u64, 1, 3, 7, 7, 2, 9, 0] {
        let event = Event::Diagnostics {
            uri: URI.to_owned(),
            version,
            diagnostics: vec![finding("x")],
        };
        server.dispatch_event(event).unwrap();
        if !server.take_effects().is_empty() {
            published.push(version);
        }
    }
    assert_eq!(published, vec![3, 7, 9]);
}

#[test]
fn diagnostics_of_a_closed_document_are_dropped() {
    let mut server = server();
    let event = Event::Diagnostics { uri: URI.to_owned(), version: 4, diagnostics: Vec::new() };
    server.dispatch_event(event).unwrap();
    assert!(server.take_effects().is_empty());
    assert_eq!(server.diagnostics_version(&URI.to_owned()), None);

    server.dispatch_notification(did_open(URI, "{ }")).unwrap();
    server.dispatch_notification(did_close(URI)).unwrap();
    server.take_effects();
    let event = Event::Diagnostics { uri: URI.to_owned(), version: 4, diagnostics: Vec::new() };
    server.dispatch_event(event).unwrap();
    assert!(server.take_effects().is_empty());
}

#[test]
fn version_zero_is_never_published() {
    let mut server = server();
    server.dispatch_notification(did_open(URI, "{ }")).unwrap();
    server.take_effects();
    let event = Event::Diagnostics { uri: URI.to_owned(), version: 0, diagnostics: Vec::new() };
    server.dispatch_event(event).unwrap();
    assert!(server.take_effects().is_empty());
    assert_eq!(server.diagnostics_version(&URI.to_owned()), Some(0));
}

#[test]
fn snapshot_observes_change() {
    let mut server = server();
    server.dispatch_notification(did_open(URI, "old")).unwrap();
    server.take_effects();
    let before = server.snapshot();
    server.on_did_change(&URI.to_owned(), vec![whole("new"), edit((0, 3), (0, 3), "er")]);
    let effects = server.take_effects();
    assert_eq!(effects.len(), 3);
    match &effects[0] {
        Effect::ApplyChange(change) => {
            assert_eq!(change.file_changes.len(), 2);
            assert_eq!(*change.file_changes[0].text, b"new".to_vec());
            assert_eq!(*change.file_changes[1].text, b"newer".to_vec());
        }
        other => panic!("unexpected {other:?}"),
    }
    for effect in &effects[1..] {
        match effect {
            Effect::Diagnose { snapshot, version, .. } => {
                assert_eq!(*version, 2);
                let file = snapshot.vfs().file_for_uri(URI).unwrap();
                assert_eq!(snapshot.vfs().content_for_file(file), &b"newer".to_vec());
            }
            other => panic!("unexpected {other:?}"),
        }
    }
    let file = before.vfs().file_for_uri(URI).unwrap();
    assert_eq!(before.vfs().content_for_file(file), &b"old".to_vec());
    let after = server.snapshot();
    assert_eq!(after.vfs().content_for_file(file), &b"newer".to_vec());
}

#[test]
fn one_response_per_request() {
    let mut server = server();
    server.dispatch_request(request(1, "textDocument/unknownThing"));
    let effects = server.take_effects();
    assert_eq!(effects.len(), 1);
    match &effects[0] {
        Effect::Respond(response) => {
            assert_eq!(response.id, RequestId::from(1));
            let error = response.error.as_ref().unwrap();
            assert_eq!(error.code, -32601);
            assert_eq!(error.message, "");
        }
        other => panic!("unexpected {other:?}"),
    }
    server.dispatch_event(Event::Response(reply(1))).unwrap();
    assert!(server.take_effects().is_empty());

    server.dispatch_request(request(2, "textDocument/hover"));
    assert_eq!(server.take_effects().len(), 1);
    server.dispatch_event(Event::Response(reply(2))).unwrap();
    let effects = server.take_effects();
    assert_eq!(effects.len(), 1);
    match &effects[0] {
        Effect::Respond(response) => {
            assert_eq!(response.id, RequestId::from(2));
            assert_eq!(response.result, Some(Value::from("done")));
        }
        other => panic!("unexpected {other:?}"),
    }
    server.dispatch_event(Event::Response(reply(2))).unwrap();
    server.dispatch_notification(cancel(2)).unwrap();
    assert!(server.take_effects().is_empty());
}

#[test]
fn cancelled_request_is_suppressed() {
    let mut server = server();
    server.dispatch_request(request(5, "textDocument/rename"));
    server.take_effects();
    server.on_cancel(RequestId::from(6));
    assert!(server.take_effects().is_empty());
    server.on_cancel(RequestId::from(5));
    let effects = server.take_effects();
    assert_eq!(effects.len(), 1);
    match &effects[0] {
        Effect::Respond(response) => {
            let error = response.error.as_ref().unwrap();
            assert_eq!(response.id, RequestId::from(5));
            assert_eq!(error.code, -32802);
            assert_eq!(error.message, "Cancelled");
        }
        other => panic!("unexpected {other:?}"),
    }
    server.on_cancel(RequestId::from(5));
    server.dispatch_notification(did_open(URI, "")).unwrap();
    server.dispatch_event(Event::Response(reply(5))).unwrap();
    let responses = server
        .take_effects()
        .iter()
        .filter(|effect| matches!(effect, Effect::Respond(_)))
        .count();
    assert_eq!(responses, 0);
}

#[test]
fn cancel_with_a_string_id() {
    let mut server = server();
    let mut asked = request(0, "textDocument/hover");
    asked.id = RequestId::from("abc".to_owned());
    server.dispatch_request(asked);
    server.take_effects();
    let mut params = serde_json::Map::new();
    params.insert("id".to_owned(), Value::from("abc"));
    let note = Notification { method: "$/cancelRequest".to_owned(), params: Value::Object(params) };
    server.dispatch_notification(note).unwrap();
    let effects = server.take_effects();
    assert_eq!(effects.len(), 1);
    match &effects[0] {
        Effect::Respond(response) => assert_eq!(response.id, RequestId::from("abc".to_owned())),
        other => panic!("unexpected {other:?}"),
    }
}

#[test]
fn every_handler_is_routed() {
    let routes = [
        ("textDocument/definition", HandlerKind::GotoDefinition),
        ("textDocument/references", HandlerKind::References),
        ("textDocument/completion", HandlerKind::Completion),
        ("textDocument/selectionRange", HandlerKind::SelectionRange),
        ("textDocument/prepareRename", HandlerKind::PrepareRename),
        ("textDocument/rename", HandlerKind::Rename),
        ("textDocument/semanticTokens/full", HandlerKind::SemanticTokensFull),
        ("textDocument/semanticTokens/range", HandlerKind::SemanticTokensRange),
        ("textDocument/hover", HandlerKind::Hover),
        ("textDocument/documentSymbol", HandlerKind::DocumentSymbol),
        ("textDocument/formatting", HandlerKind::Formatting),
        ("textDocument/documentLink", HandlerKind::DocumentLinks),
        ("textDocument/codeAction", HandlerKind::CodeAction),
        ("textDocument/documentHighlight", HandlerKind::DocumentHighlight),
    ];
    let mut server = server();
    let mut id = 0;
    for (method, kind) in routes {
        id += 1;
        let mut asked = request(id, method);
        asked.params = json(r#"{"key": [1, 2]}"#);
        server.dispatch_request(asked);
        let effects = server.take_effects();
        assert_eq!(effects.len(), 1);
        match &effects[0] {
            Effect::RunHandler { handler, request, .. } => {
                assert_eq!(*handler, kind);
                assert_eq!(request.id, RequestId::from(id));
                assert_eq!(request.method, method);
                assert_eq!(request.params, json(r#"{"key": [1, 2]}"#));
            }
            other => panic!("unexpected {other:?}"),
        }
    }
}

#[test]
fn configuration_idempotent() {
    let mut server = server();
    server.dispatch_notification(did_open(URI, "{ }")).unwrap();
    server.take_effects();
    let settings = || Settings {
        excluded_files: Setting::Absent,
        ignored: Setting::Absent,
        nix_binary: Setting::Valid("/bin/nix".to_owned()),
    };
    server.update_config(settings());
    let version = server.version();
    assert_eq!(server.config().nix_binary, "/bin/nix");
    assert!(server.take_effects().is_empty());
    server.update_config(settings());
    assert_eq!(server.config().nix_binary, "/bin/nix");
    assert!(server.config().diagnostics_excluded_files.is_empty());
    assert_eq!(server.version(), version);
    assert!(server.take_effects().is_empty());
}

#[test]
fn settings_that_bear_on_diagnostics_recompute_them() {
    let mut server = server();
    server.dispatch_notification(did_open(URI, "{ }")).unwrap();
    server.dispatch_notification(did_open("file:///w/b.nix", "{ }")).unwrap();
    server.take_effects();
    assert_eq!(server.version(), 2);
    server.update_config(Settings {
        excluded_files: Setting::Valid(vec!["file:///w/b.nix".to_owned()]),
        ignored: Setting::Invalid("`diagnostics.ignored` must be a list".to_owned()),
        nix_binary: Setting::Invalid("`nix.binary` must be a string".to_owned()),
    });
    assert_eq!(server.version(), 3);
    let effects = server.take_effects();
    assert_eq!(effects.len(), 3);
    match &effects[0] {
        Effect::ShowMessage { level, message } => {
            assert_eq!(*level, MessageLevel::Error);
            assert_eq!(
                message,
                "Failed to apply some settings:\n- `diagnostics.ignored` must be a list\n- `nix.binary` must be a string"
            );
        }
        other => panic!("unexpected {other:?}"),
    }
    match &effects[1] {
        Effect::Diagnose { uri, version, snapshot } => {
            assert_eq!(uri, URI);
            assert_eq!(*version, 3);
            assert!(snapshot.wants_diagnostics(uri));
        }
        other => panic!("unexpected {other:?}"),
    }
    match &effects[2] {
        Effect::Diagnose { uri, version, snapshot } => {
            assert_eq!(uri, "file:///w/b.nix");
            assert_eq!(*version, 3);
            assert!(!snapshot.wants_diagnostics(uri));
            assert_eq!(snapshot.config().nix_binary, "nix");
        }
        other => panic!("unexpected {other:?}"),
    }
}

#[test]
fn open_close_round_trip() {
    let mut server = server();
    server.dispatch_notification(did_open(URI, "{ caf\u{e9} = 1; }")).unwrap();
    assert_eq!(server.dispatch_notification(did_close(URI)), Ok(Noted::Handled { skipped_edits: 0 }));
    assert!(!server.is_open(&URI.to_owned()));
    assert_eq!(content(&server, URI), "{ caf\u{e9} = 1; }".as_bytes().to_vec());
    server.take_effects();
    server.dispatch_notification(did_close(URI)).unwrap();
    assert!(server.take_effects().is_empty());
}

#[test]
fn change_for_unknown_uri_is_noop() {
    let mut server = server();
    server.dispatch_notification(did_open(URI, "{ }")).unwrap();
    server.take_effects();
    let version = server.version();
    let params = json(
        r#"{"textDocument": {"uri": "file:///w/other.nix", "version": 2},
            "contentChanges": [{"text": "x"}]}"#,
    );
    let note = Notification { method: "textDocument/didChange".to_owned(), params };
    assert_eq!(server.dispatch_notification(note), Ok(Noted::Handled { skipped_edits: 0 }));
    assert!(server.take_effects().is_empty());
    assert_eq!(server.version(), version);
    assert_eq!(server.vfs().file_count(), 1);
    assert_eq!(content(&server, URI), b"{ }".to_vec());
    assert_eq!(server.on_did_change(&"https://example.com/x".to_owned(), vec![whole("x")]), 0);
    assert!(server.take_effects().is_empty());
}

#[test]
fn out_of_range_edit_is_skipped() {
    let mut server = server();
    server.dispatch_notification(did_open(URI, "ab\ncd")).unwrap();
    server.take_effects();
    let params = json(
        r#"{"textDocument": {"uri": "file:///w/a.nix", "version": 2},
            "contentChanges": [
              {"range": {"start": {"line": 0, "character": 0}, "end": {"line": 0, "character": 1}}, "text": "X"},
              {"range": {"start": {"line": 5, "character": 0}, "end": {"line": 9, "character": 0}}, "text": ""},
              {"range": {"start": {"line": 1, "character": 1}, "end": {"line": 1, "character": 2}}, "text": "Y"}
            ]}"#,
    );
    let note = Notification { method: "textDocument/didChange".to_owned(), params };
    assert_eq!(server.dispatch_notification(note), Ok(Noted::Handled { skipped_edits: 1 }));
    assert_eq!(content(&server, URI), b"Xb\ncY".to_vec());
    let effects = server.take_effects();
    match &effects[0] {
        Effect::ApplyChange(change) => assert_eq!(change.file_changes.len(), 2),
        other => panic!("unexpected {other:?}"),
    }
}

#[test]
fn backwards_edit_is_skipped() {
    let mut server = server();
    server.dispatch_notification(did_open(URI, "abc")).unwrap();
    let skipped = server.on_did_change(
        &URI.to_owned(),
        vec![edit((0, 2), (0, 1), "x"), edit((0, 4), (0, 4), "x"), edit((0, 3), (0, 3), "d")],
    );
    assert_eq!(skipped, 2);
    assert_eq!(content(&server, URI), b"abcd".to_vec());
}

#[test]
fn emptied_document_gets_its_diagnostics_cleared() {
    let mut server = server();
    server.dispatch_notification(did_open(URI, "{ }")).unwrap();
    server.take_effects();
    server.on_did_change(&URI.to_owned(), vec![whole("")]);
    let effects = server.take_effects();
    assert_eq!(effects.len(), 2);
    match &effects[1] {
        Effect::Raise(Event::Diagnostics { uri, version, diagnostics }) => {
            assert_eq!(uri, URI);
            assert_eq!(*version, 2);
            assert!(diagnostics.is_empty());
        }
        other => panic!("unexpected {other:?}"),
    }
}

#[test]
fn change_of_a_closed_document_asks_for_no_diagnostics() {
    let mut server = server();
    server.dispatch_notification(did_open(URI, "{ }")).unwrap();
    server.dispatch_notification(did_close(URI)).unwrap();
    server.take_effects();
    server.on_did_change(&URI.to_owned(), vec![whole("{ a = 1; }")]);
    let effects = server.take_effects();
    assert_eq!(effects.len(), 1);
    assert!(matches!(&effects[0], Effect::ApplyChange(_)));
    assert_eq!(content(&server, URI), b"{ a = 1; }".to_vec());
}

#[test]
fn opening_again_resets_what_was_published() {
    let mut server = server();
    server.dispatch_notification(did_open(URI, "{ }")).unwrap();
    let event = Event::Diagnostics { uri: URI.to_owned(), version: 1, diagnostics: Vec::new() };
    server.dispatch_event(event).unwrap();
    assert_eq!(server.diagnostics_version(&URI.to_owned()), Some(1));
    server.dispatch_notification(did_open(URI, "{ a = 1; }")).unwrap();
    assert_eq!(server.diagnostics_version(&URI.to_owned()), Some(0));
    assert_eq!(server.version(), 2);
}

#[test]
fn refused_open_changes_nothing() {
    let mut server = server();
    let noted = server.dispatch_notification(did_open("https://example.com/a.nix", "{ }"));
    assert_eq!(noted, Err(ServerError::Vfs(VfsError::NonFileUri)));
    assert!(!server.is_open(&"https://example.com/a.nix".to_owned()));
    assert_eq!(server.vfs().file_count(), 0);
    assert!(server.take_effects().is_empty());
    assert_eq!(ServerError::Vfs(VfsError::NonFileUri).message(), "Non-file URI");
}

#[test]
fn notifications_are_noted() {
    let mut server = server();
    let note = |method: &str, params: Value| Notification { method: method.to_owned(), params };
    assert_eq!(server.dispatch_notification(note("$/setTrace", Value::Null)), Ok(Noted::Optional));
    assert_eq!(server.dispatch_notification(note("$/", Value::Null)), Ok(Noted::Optional));
    assert_eq!(server.dispatch_notification(note("$", Value::Null)), Ok(Noted::Unhandled));
    assert_eq!(
        server.dispatch_notification(note("textDocument/didSave", Value::Null)),
        Ok(Noted::Unhandled)
    );
    assert_eq!(
        server.dispatch_notification(note("textDocument/didOpen", Value::Null)),
        Ok(Noted::Undecodable)
    );
    assert_eq!(
        server.dispatch_notification(note("textDocument/didClose", Value::from(1))),
        Ok(Noted::Undecodable)
    );
    assert_eq!(
        server.dispatch_notification(note("textDocument/didChange", Value::from("x"))),
        Ok(Noted::Undecodable)
    );
    assert_eq!(
        server.dispatch_notification(note("$/cancelRequest", Value::Null)),
        Ok(Noted::Undecodable)
    );
    assert_eq!(
        server.dispatch_notification(note("workspace/didChangeWatchedFiles", Value::Null)),
        Ok(Noted::Handled { skipped_edits: 0 })
    );
    assert!(server.take_effects().is_empty());
    assert_eq!(server.version(), 0);
}

#[test]
fn configuration_is_pulled() {
    let mut server = server();
    server.start();
    let effects = server.take_effects();
    assert_eq!(effects.len(), 1);
    match &effects[0] {
        Effect::Request(request) => {
            assert_eq!(request.id, RequestId::from(0));
            assert_eq!(request.method, "workspace/configuration");
            assert_eq!(request.params, json(r#"{"items": [{"section": "nil"}]}"#));
        }
        other => panic!("unexpected {other:?}"),
    }

    let note = Notification {
        method: "workspace/didChangeConfiguration".to_owned(),
        params: json(r#"{"settings": {"ignored": true}}"#),
    };
    assert_eq!(server.dispatch_notification(note), Ok(Noted::Handled { skipped_edits: 0 }));
    let effects = server.take_effects();
    match &effects[0] {
        Effect::Request(request) => assert_eq!(request.id, RequestId::from(1)),
        other => panic!("unexpected {other:?}"),
    }

    let answer = Response {
        id: RequestId::from(1),
        result: Some(json(r#"[{"ignored": 1}, {"nix": {"binary": "/bin/nix"}}]"#)),
        error: None,
    };
    match server.handle_message(Message::Response(answer)) {
        Ok(Flow::Configure(reply)) => {
            assert!(!reply.then_load_flake);
            assert_eq!(reply.settings.unwrap(), json(r#"{"nix": {"binary": "/bin/nix"}}"#));
        }
        other => panic!("unexpected {other:?}"),
    }
    let again = Response { id: RequestId::from(1), result: None, error: None };
    assert!(matches!(server.handle_message(Message::Response(again)), Ok(Flow::Continue)));

    let failed = Response {
        id: RequestId::from(0),
        result: None,
        error: Some(lsp_server::ResponseError {
            code: -32603,
            message: "no settings".to_owned(),
            data: None,
        }),
    };
    match server.handle_response(failed) {
        Some(reply) => {
            assert!(reply.then_load_flake);
            match reply.settings {
                Err(SettingsFailure::Refused(error)) => assert_eq!(error.message, "no settings"),
                other => panic!("unexpected {other:?}"),
            }
        }
        None => panic!("the first question is forgotten"),
    }
    assert!(server.take_effects().is_empty());
}

#[test]
fn settings_of_an_answer() {
    let answers = [
        (Some(json("[]")), Some(Value::Null)),
        (Some(json("[5]")), Some(Value::from(5))),
        (Some(json("[1, 2, 3]")), Some(Value::from(3))),
        (None, None),
        (Some(Value::Null), None),
        (Some(json(r#"{"a": 1}"#)), None),
    ];
    for (result, expected) in answers {
        let mut server = server();
        server.load_config(false);
        let response = Response { id: RequestId::from(0), result, error: None };
        let reply = server.handle_response(response).unwrap();
        match (reply.settings, expected) {
            (Ok(value), Some(expected)) => assert_eq!(value, expected),
            (Err(SettingsFailure::Undecodable), None) => {}
            other => panic!("unexpected {other:?}"),
        }
    }
}

#[test]
fn configuration_then_flake() {
    let mut server = server();
    let settings = Settings {
        excluded_files: Setting::Absent,
        ignored: Setting::Absent,
        nix_binary: Setting::Valid("/bin/nix".to_owned()),
    };
    server.configuration_loaded(Some(settings), true);
    let effects = server.take_effects();
    assert_eq!(effects.len(), 1);
    match &effects[0] {
        Effect::ProbeFlake { flake_path, lock_path, nix_binary } => {
            assert_eq!(flake_path, "/w/flake.nix");
            assert_eq!(lock_path, "/w/flake.lock");
            assert_eq!(nix_binary, "/bin/nix");
        }
        other => panic!("unexpected {other:?}"),
    }
    server.configuration_loaded(None, false);
    assert!(server.take_effects().is_empty());
    server.configuration_loaded(None, true);
    assert_eq!(server.take_effects().len(), 1);
}

#[test]
fn send_request_numbers_requests() {
    let mut server = server();
    let pending = Pending::Configuration { then_load_flake: false };
    assert!(server.send_request("a".to_owned(), Value::from(1), pending));
    assert!(server.send_request("b".to_owned(), Value::from(2), pending));
    let effects = server.take_effects();
    match (&effects[0], &effects[1]) {
        (Effect::Request(first), Effect::Request(second)) => {
            assert_eq!(first.id, RequestId::from(0));
            assert_eq!(first.method, "a");
            assert_eq!(first.params, Value::from(1));
            assert_eq!(second.id, RequestId::from(1));
            assert_eq!(second.method, "b");
        }
        other => panic!("unexpected {other:?}"),
    }
}

#[test]
fn messages_are_dispatched() {
    let mut server = server();
    let asked = Message::Request(request(1, "textDocument/hover"));
    assert!(matches!(server.handle_message(asked), Ok(Flow::Continue)));
    assert_eq!(server.take_effects().len(), 1);
    let opened = Message::Notification(did_open(URI, "{ }"));
    assert!(matches!(server.handle_message(opened), Ok(Flow::Continue)));
    assert!(server.is_open(&URI.to_owned()));
    let bad = Message::Notification(did_open("https://example.com/a.nix", "{ }"));
    assert!(matches!(
        server.handle_message(bad),
        Err(ServerError::Vfs(VfsError::NonFileUri))
    ));
    server.take_effects();
    let exit = Notification { method: "exit".to_owned(), params: Value::Null };
    assert!(matches!(server.handle_message(Message::Notification(exit)), Ok(Flow::Exit)));
    assert!(server.take_effects().is_empty());
}

#[test]
fn client_exit_ends_the_session() {
    let mut server = server();
    assert_eq!(server.dispatch_event(Event::ClientExited), Err(ServerError::ClientExited));
    assert!(server.take_effects().is_empty());
    assert_eq!(
        ServerError::ClientExited.message(),
        "The process initializing this server is exited. Exit now"
    );
    assert_eq!(ServerError::ChannelClosed.message(), "Channel closed");
    assert_eq!(ServerError::WorkerPanicked.message(), "Worker panicked");
}

#[test]
fn flake_bootstrap_missing_input() {
    let mut server = server();
    let probe = FlakeProbe::Resolved {
        flake_src: b"{ inputs = { }; }".to_vec(),
        inputs: ResolvedInputs::new(vec![ResolvedInput {
            name: "nixpkgs".to_owned(),
            store_path: "/nix/store/nonexistent".to_owned(),
            exists: false,
        }])
        .unwrap(),
    };
    server.flake_probed(probe);
    let effects = server.take_effects();
    assert_eq!(effects.len(), 2);
    match &effects[0] {
        Effect::ShowMessage { level, message } => {
            assert_eq!(*level, MessageLevel::Warning);
            assert_eq!(
                message,
                "Some flake inputs are not available, please run `nix flake archive` to fetch all inputs"
            );
        }
        other => panic!("unexpected {other:?}"),
    }
    match &effects[1] {
        Effect::ApplyChange(change) => {
            assert_eq!(change.file_changes.len(), 1);
            let info = change.flake_info.as_ref().unwrap().as_ref().unwrap();
            assert!(info.input_store_paths().is_empty());
        }
        other => panic!("unexpected {other:?}"),
    }
    let info = server.vfs().flake_info().as_ref().unwrap();
    assert!(info.input_store_paths().is_empty());
    assert_eq!(Ok(info.flake_file()), server.vfs().file_for_path("/w/flake.nix"));
    assert_eq!(content(&server, "file:///w/flake.nix"), b"{ inputs = { }; }".to_vec());
    assert_eq!(server.version(), 1);
}

#[test]
fn flake_failure_is_shown() {
    let mut server = server();
    server.flake_probed(FlakeProbe::RootUnreadable("permission denied".to_owned()));
    let effects = server.take_effects();
    assert_eq!(effects.len(), 1);
    match &effects[0] {
        Effect::ShowMessage { level, message } => {
            assert_eq!(*level, MessageLevel::Error);
            assert_eq!(
                message,
                "Failed to load flake workspace: Failed to read flake root \"/w/flake.nix\": permission denied"
            );
        }
        other => panic!("unexpected {other:?}"),
    }
    assert_eq!(server.version(), 0);
    assert!(server.vfs().flake_info().is_none());
}

#[test]
fn no_flake_clears_the_table() {
    let mut server = server();
    server.flake_probed(FlakeProbe::LockMissing { flake_src: b"{ }".to_vec() });
    assert!(server.vfs().flake_info().is_some());
    server.take_effects();
    server.flake_probed(FlakeProbe::RootMissing);
    assert!(server.vfs().flake_info().is_none());
    let effects = server.take_effects();
    assert_eq!(effects.len(), 1);
    match &effects[0] {
        Effect::ApplyChange(change) => {
            assert!(change.file_changes.is_empty());
            assert!(matches!(change.flake_info, Some(None)));
        }
        other => panic!("unexpected {other:?}"),
    }
}

#[test]
fn open_flake_file_is_kept_over_the_disk() {
    let mut server = server();
    server.dispatch_notification(did_open("file:///w/flake.nix", "unsaved")).unwrap();
    server.take_effects();
    server.flake_probed(FlakeProbe::LockMissing { flake_src: b"on disk".to_vec() });
    assert_eq!(content(&server, "file:///w/flake.nix"), b"unsaved".to_vec());
    let effects = server.take_effects();
    match &effects[0] {
        Effect::ApplyChange(change) => assert!(change.file_changes.is_empty()),
        other => panic!("unexpected {other:?}"),
    }
}

#[test]
fn steps_of_every_kind() {
    let mut server = server();
    let opened = Input::Message(Message::Notification(did_open(URI, "{ }")));
    assert!(matches!(server.step(opened), Ok(Flow::Continue)));
    let asked = Input::Message(Message::Request(request(1, "textDocument/hover")));
    assert!(matches!(server.step(asked), Ok(Flow::Continue)));
    let news = Event::Diagnostics { uri: URI.to_owned(), version: 1, diagnostics: Vec::new() };
    assert!(matches!(server.step(Input::Event(news)), Ok(Flow::Continue)));
    assert!(matches!(server.step(Input::Event(Event::Response(reply(1)))), Ok(Flow::Continue)));
    assert!(matches!(server.step(Input::Configured(None, true)), Ok(Flow::Continue)));
    assert!(matches!(server.step(Input::FlakeProbed(FlakeProbe::RootMissing)), Ok(Flow::Continue)));
    let kinds: Vec<&str> = server
        .take_effects()
        .iter()
        .map(|effect| match effect {
            Effect::Respond(_) => "respond",
            Effect::Request(_) => "request",
            Effect::PublishDiagnostics { .. } => "publish",
            Effect::ShowMessage { .. } => "show",
            Effect::ApplyChange(_) => "apply",
            Effect::RunHandler { .. } => "run",
            Effect::Diagnose { .. } => "diagnose",
            Effect::Raise(_) => "raise",
            Effect::ProbeFlake { .. } => "probe",
        })
        .collect();
    assert_eq!(
        kinds,
        vec!["apply", "diagnose", "run", "publish", "respond", "probe", "apply"]
    );
    let gone = server.step(Input::Event(Event::ClientExited));
    assert!(matches!(gone, Err(ServerError::ClientExited)));
    let exit = Notification { method: "exit".to_owned(), params: Value::Null };
    assert!(matches!(server.step(Input::Message(Message::Notification(exit))), Ok(Flow::Exit)));
}

#[test]
fn server_survives_handler_panic() {
    let mut server = server();
    server.dispatch_request(request(1, "textDocument/completion"));
    server.take_effects();
    let at = PanicPlace { place: "a.rs:1:1".to_owned(), backtrace: String::new() };
    let failure = panic_failure("textDocument/completion", Some("boom"), Some(at));
    server.dispatch_event(response_event(RequestId::from(1), Err(failure))).unwrap();
    let effects = server.take_effects();
    assert_eq!(effects.len(), 1);
    match &effects[0] {
        Effect::Respond(response) => {
            let error = response.error.as_ref().unwrap();
            assert_eq!(response.id, RequestId::from(1));
            assert_eq!(error.code, -32603);
            assert!(error.message.contains("boom"));
            assert!(error.message.contains("Location:"));
        }
        other => panic!("unexpected {other:?}"),
    }
    server.dispatch_request(request(2, "textDocument/completion"));
    assert!(matches!(&server.take_effects()[0], Effect::RunHandler { .. }));
}
