//! JSON-RPC values of the `lsp_server` crate and the replies the server
//! builds from handler outcomes.

use lsp_server::{ErrorCode, Request, RequestId, Response};
use vstd::prelude::*;
use vstd::string::*;

verus! {

/// Request identifier of the transport: kept opaque.
#[verifier::external_type_specification]
#[verifier::external_body]
pub struct ExRequestId(lsp_server::RequestId);

/// JSON tree of `serde_json`: carried through, never inspected.
#[verifier::external_type_specification]
#[verifier::external_body]
pub struct ExValue(serde_json::Value);

/// The error of a response: a code, a message and optional data.
#[verifier::external_type_specification]
pub struct ExResponseError(lsp_server::ResponseError);

/// A response: the identifier of its request, and a result or an error.
#[verifier::external_type_specification]
pub struct ExResponse(lsp_server::Response);

/// A request: an identifier, a method and parameters.
#[verifier::external_type_specification]
pub struct ExRequest(lsp_server::Request);

/// A notification: a method and parameters.
#[verifier::external_type_specification]
pub struct ExNotification(lsp_server::Notification);

/// The error codes of the protocol.
#[verifier::external_type_specification]
pub struct ExErrorCode(lsp_server::ErrorCode);

/// A message of the transport: a request, a response or a notification.
#[verifier::external_type_specification]
pub struct ExMessage(lsp_server::Message);

/// The number that the protocol assigns to each error code. The enum is
/// open to additions; of a code that is not listed nothing is said.
pub open spec fn code_number(code: ErrorCode) -> int {
    match code {
        ErrorCode::ParseError => -32700,
        ErrorCode::InvalidRequest => -32600,
        ErrorCode::MethodNotFound => -32601,
        ErrorCode::InvalidParams => -32602,
        ErrorCode::InternalError => -32603,
        ErrorCode::ServerErrorStart => -32099,
        ErrorCode::ServerErrorEnd => -32000,
        ErrorCode::ServerNotInitialized => -32002,
        ErrorCode::UnknownErrorCode => -32001,
        ErrorCode::RequestCanceled => -32800,
        ErrorCode::ContentModified => -32801,
        ErrorCode::ServerCancelled => -32802,
        ErrorCode::RequestFailed => -32803,
        _ => arbitrary(),
    }
}

/// Reads the discriminant of `lsp_server::ErrorCode`; the contract lists
/// the values that the enum declares.
#[verifier::external_body]
pub(crate) fn error_code_number(code: ErrorCode) -> (n: i32)
    ensures
        n == code_number(code),
{
    code as i32
}

/// `lsp_server::Response::new_err` builds a response without a result whose
/// error holds the given code and message and no data.
pub assume_specification[ lsp_server::Response::new_err ](
    id: lsp_server::RequestId,
    code: i32,
    message: String,
) -> (r: lsp_server::Response)
    ensures
        r.id == id,
        r.result is None,
        r.error is Some,
        r.error->0.code == code,
        r.error->0.message == message,
        r.error->0.data is None,
;

/// The derived `Clone` of `lsp_server::RequestId` copies the identifier.
pub assume_specification[ <lsp_server::RequestId as Clone>::clone ](
    id: &lsp_server::RequestId,
) -> (copy: lsp_server::RequestId)
    ensures
        copy == *id,
;

/// A failure with a protocol error code of its own, shown to the user as is.
#[derive(Debug)]
pub struct LspError {
    pub code: ErrorCode,
    pub message: String,
}

/// Why a handler produced no reply.
#[derive(Debug)]
pub enum HandlerError {
    /// The analysis was cancelled under the handler.
    Cancelled,
    /// The handler reported a protocol error.
    Lsp(LspError),
    /// The parameters could not be decoded; holds the decoder's message.
    InvalidParams(String),
    /// Anything else; holds the text of the error chain.
    Other(String),
}

impl HandlerError {
    /// The code under which the failure is reported to the client.
    pub open spec fn code(self) -> int {
        match self {
            HandlerError::Cancelled => code_number(ErrorCode::ServerCancelled),
            HandlerError::Lsp(e) => code_number(e.code),
            HandlerError::InvalidParams(_) => code_number(ErrorCode::InvalidParams),
            HandlerError::Other(_) => code_number(ErrorCode::InternalError),
        }
    }

    /// The message under which the failure is reported to the client.
    pub open spec fn message(self) -> Seq<char> {
        match self {
            HandlerError::Cancelled => "Cancelled"@,
            HandlerError::Lsp(e) => e.message@,
            HandlerError::InvalidParams(text) => text@,
            HandlerError::Other(text) => text@,
        }
    }
}

/// The error of a response as contracts see it.
pub struct ErrorView {
    pub code: int,
    pub message: Seq<char>,
    pub data: Option<serde_json::Value>,
}

/// A response as contracts see it.
pub struct ResponseView {
    pub id: RequestId,
    pub result: Option<serde_json::Value>,
    pub error: Option<ErrorView>,
}

/// What a response holds.
pub open spec fn response_view(r: Response) -> ResponseView {
    ResponseView {
        id: r.id,
        result: r.result,
        error: match r.error {
            Some(e) => Some(ErrorView { code: e.code as int, message: e.message@, data: e.data }),
            None => None,
        },
    }
}

/// The error response to `id` with this code and message and no data.
pub open spec fn error_reply(id: RequestId, code: int, message: Seq<char>) -> ResponseView {
    ResponseView { id, result: None, error: Some(ErrorView { code, message, data: None }) }
}

/// The successful response to `id` that carries `value`.
pub open spec fn ok_reply(id: RequestId, value: serde_json::Value) -> ResponseView {
    ResponseView { id, result: Some(value), error: None }
}

/// What a client gets for `id` when the handler ended with `ret`.
pub open spec fn reply_for(
    id: RequestId,
    ret: Result<serde_json::Value, HandlerError>,
) -> ResponseView {
    match ret {
        Ok(value) => ok_reply(id, value),
        Err(e) => error_reply(id, e.code(), e.message()),
    }
}

/// A request as contracts see it.
pub struct RequestView {
    pub id: RequestId,
    pub method: Seq<char>,
    pub params: serde_json::Value,
}

/// What a request holds.
pub open spec fn request_view(r: Request) -> RequestView {
    RequestView { id: r.id, method: r.method@, params: r.params }
}

/// Turns the outcome of a handler into the response for the client.
pub fn result_to_response(id: RequestId, ret: Result<serde_json::Value, HandlerError>) -> (r:
    Response)
    ensures
        response_view(r) == reply_for(id, ret),
{
    match ret {
        Ok(value) => Response { id, result: Some(value), error: None },
        Err(HandlerError::Cancelled) => {
            let code = error_code_number(ErrorCode::ServerCancelled);
            Response::new_err(id, code, "Cancelled".to_owned())
        },
        Err(HandlerError::Lsp(e)) => {
            let code = error_code_number(e.code);
            Response::new_err(id, code, e.message)
        },
        Err(HandlerError::InvalidParams(text)) => {
            let code = error_code_number(ErrorCode::InvalidParams);
            Response::new_err(id, code, text)
        },
        Err(HandlerError::Other(text)) => {
            let code = error_code_number(ErrorCode::InternalError);
            Response::new_err(id, code, text)
        },
    }
}

/// Where a panic happened, as the panic observer recorded it.
#[derive(Debug)]
pub struct PanicPlace {
    /// File, line and column.
    pub place: String,
    /// The calls that led there.
    pub backtrace: String,
}

/// The label under which the place of a panic stands in a message.
pub open spec fn location_label() -> Seq<char> {
    "Location:"@
}

/// The lines that say where a panic happened: the label, then the place
/// and the backtrace, or `unknown` where none was recorded.
pub open spec fn place_lines(recorded: Option<PanicPlace>) -> Seq<char> {
    location_label() + (match recorded {
        Some(at) => " "@ + at.place@ + "\nBacktrace: "@ + at.backtrace@,
        None => " unknown"@,
    })
}

/// What a message about a panic in `ctx` starts with: the context and the
/// reason, `unknown` where the payload held no text.
pub open spec fn panic_head(ctx: Seq<char>, reason: Option<Seq<char>>) -> Seq<char> {
    "Panicked in "@ + ctx + ": "@ + (match reason {
        Some(text) => text,
        None => "unknown"@,
    })
}

/// The message of a failure that stands for a panic in `ctx`.
pub open spec fn panic_message(
    ctx: Seq<char>,
    reason: Option<Seq<char>>,
    recorded: Option<PanicPlace>,
) -> Seq<char> {
    panic_head(ctx, reason) + "\n"@ + place_lines(recorded)
}

/// Whether `part` stands somewhere in `text`.
pub open spec fn holds_text(text: Seq<char>, part: Seq<char>) -> bool {
    exists|at: int|
        0 <= at && at + part.len() <= text.len() && #[trigger] text.subrange(
            at,
            at + part.len(),
        ) == part
}

/// The text of an optional string slice.
pub open spec fn reason_text(reason: Option<&str>) -> Option<Seq<char>> {
    match reason {
        Some(text) => Some(text@),
        None => None,
    }
}

/// The lines that say where a panic happened.
pub fn panic_place(recorded: &Option<PanicPlace>) -> (lines: String)
    ensures
        lines@ == place_lines(*recorded),
{
    let mut lines = "Location:".to_owned();
    match recorded {
        Some(at) => {
            lines.append(" ");
            lines.append(at.place.as_str());
            lines.append("\nBacktrace: ");
            lines.append(at.backtrace.as_str());
        },
        None => {
            lines.append(" unknown");
        },
    }
    lines
}

/// The failure that a caught panic becomes. Its message starts with the
/// context and the panic's reason and goes on, under the label of the
/// location, with the place that the panic observer recorded, if any.
pub fn panic_failure(ctx: &str, reason: Option<&str>, recorded: Option<PanicPlace>) -> (e:
    HandlerError)
    ensures
        e is Other,
        e->Other_0@ == panic_message(ctx@, reason_text(reason), recorded),
        e->Other_0@.subrange(0, panic_head(ctx@, reason_text(reason)).len() as int) == panic_head(
            ctx@,
            reason_text(reason),
        ),
        holds_text(e->Other_0@, location_label()),
{
    let mut text = "Panicked in ".to_owned();
    text.append(ctx);
    text.append(": ");
    match reason {
        Some(r) => text.append(r),
        None => text.append("unknown"),
    }
    let ghost head = text@;
    text.append("\n");
    let ghost at = text@.len() as int;
    text.append(panic_place(&recorded).as_str());
    proof {
        let rest = match recorded {
            Some(at) => " "@ + at.place@ + "\nBacktrace: "@ + at.backtrace@,
            None => " unknown"@,
        };
        assert(text@ =~= head + "\n"@ + location_label() + rest);
        assert(text@.subrange(0, head.len() as int) =~= head);
        assert(text@.subrange(at, at + location_label().len()) =~= location_label());
    }
    HandlerError::Other(text)
}

/// The rejection of a request that arrives after shutdown was requested.
pub fn shutdown_rejection(id: RequestId) -> (r: Response)
    ensures
        response_view(r) == error_reply(
            id,
            code_number(ErrorCode::InvalidRequest),
            "Shutdown already requested."@,
        ),
{
    let code = error_code_number(ErrorCode::InvalidRequest);
    Response::new_err(id, code, "Shutdown already requested.".to_owned())
}

/// The reply to a request whose method no handler is registered for.
pub fn method_not_found(id: RequestId) -> (r: Response)
    ensures
        response_view(r) == error_reply(
            id,
            code_number(ErrorCode::MethodNotFound),
            Seq::<char>::empty(),
        ),
{
    let code = error_code_number(ErrorCode::MethodNotFound);
    Response::new_err(id, code, String::new())
}

/// The reply that tells the client that its request was cancelled.
pub fn cancellation(id: RequestId) -> (r: Response)
    ensures
        response_view(r) == error_reply(id, code_number(ErrorCode::ServerCancelled), "Cancelled"@),
{
    let code = error_code_number(ErrorCode::ServerCancelled);
    Response::new_err(id, code, "Cancelled".to_owned())
}

} // verus!
