//! The table of methods: which handler answers a request, and what a
//! notification is.

use vstd::prelude::*;
use vstd::string::*;

verus! {

/// The handlers that answer a request from a snapshot, on a worker.
#[derive(Clone, Copy, Debug, PartialEq, Eq, Structural)]
pub enum HandlerKind {
    GotoDefinition,
    References,
    Completion,
    SelectionRange,
    PrepareRename,
    Rename,
    SemanticTokensFull,
    SemanticTokensRange,
    Hover,
    DocumentSymbol,
    Formatting,
    DocumentLinks,
    CodeAction,
    DocumentHighlight,
}

impl HandlerKind {
    /// The method that the handler answers.
    pub open spec fn method(self) -> Seq<char> {
        match self {
            HandlerKind::GotoDefinition => "textDocument/definition"@,
            HandlerKind::References => "textDocument/references"@,
            HandlerKind::Completion => "textDocument/completion"@,
            HandlerKind::SelectionRange => "textDocument/selectionRange"@,
            HandlerKind::PrepareRename => "textDocument/prepareRename"@,
            HandlerKind::Rename => "textDocument/rename"@,
            HandlerKind::SemanticTokensFull => "textDocument/semanticTokens/full"@,
            HandlerKind::SemanticTokensRange => "textDocument/semanticTokens/range"@,
            HandlerKind::Hover => "textDocument/hover"@,
            HandlerKind::DocumentSymbol => "textDocument/documentSymbol"@,
            HandlerKind::Formatting => "textDocument/formatting"@,
            HandlerKind::DocumentLinks => "textDocument/documentLink"@,
            HandlerKind::CodeAction => "textDocument/codeAction"@,
            HandlerKind::DocumentHighlight => "textDocument/documentHighlight"@,
        }
    }

    /// The method that the handler answers.
    pub fn method_name(self) -> (name: &'static str)
        ensures
            name@ == self.method(),
    {
        match self {
            HandlerKind::GotoDefinition => "textDocument/definition",
            HandlerKind::References => "textDocument/references",
            HandlerKind::Completion => "textDocument/completion",
            HandlerKind::SelectionRange => "textDocument/selectionRange",
            HandlerKind::PrepareRename => "textDocument/prepareRename",
            HandlerKind::Rename => "textDocument/rename",
            HandlerKind::SemanticTokensFull => "textDocument/semanticTokens/full",
            HandlerKind::SemanticTokensRange => "textDocument/semanticTokens/range",
            HandlerKind::Hover => "textDocument/hover",
            HandlerKind::DocumentSymbol => "textDocument/documentSymbol",
            HandlerKind::Formatting => "textDocument/formatting",
            HandlerKind::DocumentLinks => "textDocument/documentLink",
            HandlerKind::CodeAction => "textDocument/codeAction",
            HandlerKind::DocumentHighlight => "textDocument/documentHighlight",
        }
    }
}

/// The handlers in the order in which a request is held against them.
pub open spec fn handler_table() -> Seq<HandlerKind> {
    seq![
        HandlerKind::GotoDefinition,
        HandlerKind::References,
        HandlerKind::Completion,
        HandlerKind::SelectionRange,
        HandlerKind::PrepareRename,
        HandlerKind::Rename,
        HandlerKind::SemanticTokensFull,
        HandlerKind::SemanticTokensRange,
        HandlerKind::Hover,
        HandlerKind::DocumentSymbol,
        HandlerKind::Formatting,
        HandlerKind::DocumentLinks,
        HandlerKind::CodeAction,
        HandlerKind::DocumentHighlight,
    ]
}

/// The handlers in the order in which a request is held against them.
pub fn handlers() -> (table: Vec<HandlerKind>)
    ensures
        table@ == handler_table(),
{
    let table = vec![
        HandlerKind::GotoDefinition,
        HandlerKind::References,
        HandlerKind::Completion,
        HandlerKind::SelectionRange,
        HandlerKind::PrepareRename,
        HandlerKind::Rename,
        HandlerKind::SemanticTokensFull,
        HandlerKind::SemanticTokensRange,
        HandlerKind::Hover,
        HandlerKind::DocumentSymbol,
        HandlerKind::Formatting,
        HandlerKind::DocumentLinks,
        HandlerKind::CodeAction,
        HandlerKind::DocumentHighlight,
    ];
    assert(table@ =~= handler_table());
    table
}

/// How a request is answered.
#[derive(Clone, Copy, Debug, PartialEq, Eq, Structural)]
pub enum Route {
    /// On the event loop: the request to shut down.
    Shutdown,
    /// On a worker, from a snapshot.
    Snapshot(HandlerKind),
    /// By no handler.
    Unknown,
}

/// The route of the first handler among `table` that answers `method`.
pub open spec fn first_handler(table: Seq<HandlerKind>, method: Seq<char>) -> Route
    decreases table.len(),
{
    if table.len() == 0 {
        Route::Unknown
    } else if table[0].method() == method {
        Route::Snapshot(table[0])
    } else {
        first_handler(table.drop_first(), method)
    }
}

/// The route of a request by its method.
pub open spec fn route_of(method: Seq<char>) -> Route {
    if method == "shutdown"@ {
        Route::Shutdown
    } else {
        first_handler(handler_table(), method)
    }
}

/// Whether the string holds this text.
pub fn text_is(s: &String, text: &str) -> (r: bool)
    ensures
        r == (s@ == text@),
{
    let owned = text.to_owned();
    *s == owned
}

/// Finds the route of a request by its method.
pub fn route_request(method: &String) -> (route: Route)
    ensures
        route == route_of(method@),
{
    if text_is(method, "shutdown") {
        return Route::Shutdown;
    }
    let table = handlers();
    let mut i: usize = 0;
    assert(handler_table().skip(0) =~= handler_table());
    while i < table.len()
        invariant
            i <= table.len(),
            table@ == handler_table(),
            method@ != "shutdown"@,
            first_handler(handler_table(), method@) == first_handler(
                handler_table().skip(i as int),
                method@,
            ),
        decreases table.len() - i,
    {
        let kind = table[i];
        proof {
            let rest = handler_table().skip(i as int);
            assert(rest[0] == kind);
            assert(rest.drop_first() =~= handler_table().skip(i + 1));
            assert(first_handler(rest, method@) == if kind.method() == method@ {
                Route::Snapshot(kind)
            } else {
                first_handler(rest.drop_first(), method@)
            });
        }
        if text_is(method, kind.method_name()) {
            return Route::Snapshot(kind);
        }
        i += 1;
    }
    assert(handler_table().skip(i as int).len() == 0);
    Route::Unknown
}

/// What a notification is, by its method.
#[derive(Clone, Copy, Debug, PartialEq, Eq, Structural)]
pub enum NotificationKind {
    Cancel,
    DidOpen,
    DidClose,
    DidChange,
    DidChangeConfiguration,
    DidChangeWatchedFiles,
    /// Not handled, and none that a server has to know.
    Optional,
    /// Not handled.
    Unhandled,
}

/// Whether a method is one that a server may ignore: its name starts with `$/`.
pub open spec fn is_optional_method(method: Seq<char>) -> bool {
    method.len() >= 2 && method[0] == '$' && method[1] == '/'
}

/// What a notification is, by its method.
pub open spec fn notification_kind_of(method: Seq<char>) -> NotificationKind {
    if method == "$/cancelRequest"@ {
        NotificationKind::Cancel
    } else if method == "textDocument/didOpen"@ {
        NotificationKind::DidOpen
    } else if method == "textDocument/didClose"@ {
        NotificationKind::DidClose
    } else if method == "textDocument/didChange"@ {
        NotificationKind::DidChange
    } else if method == "workspace/didChangeConfiguration"@ {
        NotificationKind::DidChangeConfiguration
    } else if method == "workspace/didChangeWatchedFiles"@ {
        NotificationKind::DidChangeWatchedFiles
    } else if is_optional_method(method) {
        NotificationKind::Optional
    } else {
        NotificationKind::Unhandled
    }
}

/// Says what a notification is.
pub fn notification_kind(method: &String) -> (kind: NotificationKind)
    ensures
        kind == notification_kind_of(method@),
{
    if text_is(method, "$/cancelRequest") {
        NotificationKind::Cancel
    } else if text_is(method, "textDocument/didOpen") {
        NotificationKind::DidOpen
    } else if text_is(method, "textDocument/didClose") {
        NotificationKind::DidClose
    } else if text_is(method, "textDocument/didChange") {
        NotificationKind::DidChange
    } else if text_is(method, "workspace/didChangeConfiguration") {
        NotificationKind::DidChangeConfiguration
    } else if text_is(method, "workspace/didChangeWatchedFiles") {
        NotificationKind::DidChangeWatchedFiles
    } else {
        let text = method.as_str();
        if text.unicode_len() >= 2 && text.get_char(0) == '$' && text.get_char(1) == '/' {
            NotificationKind::Optional
        } else {
            NotificationKind::Unhandled
        }
    }
}

/// Whether the method is the notification that ends the session.
pub fn is_exit(method: &String) -> (r: bool)
    ensures
        r == (method@ == "exit"@),
{
    text_is(method, "exit")
}

} // verus!
