//! What reaches the event loop from the workers, and what the event loop
//! asks the world to do.

use crate::protocol::{
    reply_for, request_view, response_view, result_to_response, HandlerError, RequestView,
    ResponseView,
};
use crate::route::HandlerKind;
use crate::server::{SnapshotView, StateSnapshot};
use crate::vfs::{ChangeSet, ChangeSetView, FlakeInfo, FlakeInfoView};
use lsp_server::{Request, RequestId, Response};
use lsp_types::Diagnostic;
use vstd::prelude::*;

verus! {

/// A finding about a document, made by the analysis: carried to the client as it is.
#[verifier::external_type_specification]
#[verifier::external_body]
pub struct ExDiagnostic(lsp_types::Diagnostic);

/// The derived `Clone` of `lsp_types::Diagnostic` copies the finding.
pub assume_specification[ <lsp_types::Diagnostic as Clone>::clone ](
    diagnostic: &lsp_types::Diagnostic,
) -> (copy: lsp_types::Diagnostic)
    ensures
        copy == *diagnostic,
;

/// What loading the workspace's flake found.
#[derive(Debug)]
pub enum LoadFlakeResult {
    IsFlake { flake_info: FlakeInfo, missing_inputs: bool },
    NotFlake,
}

pub enum LoadFlakeView {
    IsFlake { flake_info: FlakeInfoView, missing_inputs: bool },
    NotFlake,
}

impl View for LoadFlakeResult {
    type V = LoadFlakeView;

    open spec fn view(&self) -> LoadFlakeView {
        match *self {
            LoadFlakeResult::IsFlake { flake_info, missing_inputs } => LoadFlakeView::IsFlake {
                flake_info: flake_info@,
                missing_inputs,
            },
            LoadFlakeResult::NotFlake => LoadFlakeView::NotFlake,
        }
    }
}

/// The outcome of loading the flake as contracts see it.
pub open spec fn flake_outcome_view(r: Result<LoadFlakeResult, String>) -> Result<
    LoadFlakeView,
    Seq<char>,
> {
    match r {
        Ok(found) => Ok(found@),
        Err(message) => Err(message@),
    }
}

/// What a worker, or the watcher of the client's process, tells the event loop.
#[derive(Debug)]
pub enum Event {
    /// A handler has answered a request.
    Response(Response),
    /// The diagnostics of a document were computed for a version.
    Diagnostics { uri: String, version: u64, diagnostics: Vec<Diagnostic> },
    /// The client's process is gone.
    ClientExited,
    /// The flake of the workspace was looked at.
    LoadFlake(Result<LoadFlakeResult, String>),
}

pub enum EventView {
    Response(ResponseView),
    Diagnostics { uri: Seq<char>, version: u64, diagnostics: Seq<Diagnostic> },
    ClientExited,
    LoadFlake(Result<LoadFlakeView, Seq<char>>),
}

impl View for Event {
    type V = EventView;

    open spec fn view(&self) -> EventView {
        match *self {
            Event::Response(r) => EventView::Response(response_view(r)),
            Event::Diagnostics { uri, version, diagnostics } => EventView::Diagnostics {
                uri: uri@,
                version,
                diagnostics: diagnostics@,
            },
            Event::ClientExited => EventView::ClientExited,
            Event::LoadFlake(r) => EventView::LoadFlake(flake_outcome_view(r)),
        }
    }
}

/// How urgent a message for the user is.
#[derive(Clone, Copy, Debug, PartialEq, Eq, Structural)]
pub enum MessageLevel {
    Error,
    Warning,
}

/// What the event loop asks for: messages for the client, work for the
/// pool, changes for the analysis.
#[derive(Debug)]
pub enum Effect {
    /// Send a response to the client.
    Respond(Response),
    /// Send a request to the client.
    Request(Request),
    /// Tell the client the diagnostics of a document, without a version.
    PublishDiagnostics { uri: String, diagnostics: Vec<Diagnostic> },
    /// Show the user a message.
    ShowMessage { level: MessageLevel, message: String },
    /// Hand the changes to the analysis before anything that follows.
    ApplyChange(ChangeSet),
    /// Let a worker answer the request from the snapshot.
    RunHandler { handler: HandlerKind, request: Request, snapshot: StateSnapshot },
    /// Let a worker compute the diagnostics of a document from the snapshot.
    Diagnose { uri: String, version: u64, snapshot: StateSnapshot },
    /// Put the event in the queue of events.
    Raise(Event),
    /// Let a worker look at the flake of the workspace.
    ProbeFlake { flake_path: String, lock_path: String, nix_binary: String },
}

pub enum EffectView {
    Respond(ResponseView),
    Request(RequestView),
    PublishDiagnostics { uri: Seq<char>, diagnostics: Seq<Diagnostic> },
    ShowMessage { level: MessageLevel, message: Seq<char> },
    ApplyChange(ChangeSetView),
    RunHandler { handler: HandlerKind, request: RequestView, snapshot: SnapshotView },
    Diagnose { uri: Seq<char>, version: u64, snapshot: SnapshotView },
    Raise(EventView),
    ProbeFlake { flake_path: Seq<char>, lock_path: Seq<char>, nix_binary: Seq<char> },
}

impl View for Effect {
    type V = EffectView;

    open spec fn view(&self) -> EffectView {
        match *self {
            Effect::Respond(r) => EffectView::Respond(response_view(r)),
            Effect::Request(r) => EffectView::Request(request_view(r)),
            Effect::PublishDiagnostics { uri, diagnostics } => EffectView::PublishDiagnostics {
                uri: uri@,
                diagnostics: diagnostics@,
            },
            Effect::ShowMessage { level, message } => EffectView::ShowMessage {
                level,
                message: message@,
            },
            Effect::ApplyChange(change) => EffectView::ApplyChange(change@),
            Effect::RunHandler { handler, request, snapshot } => EffectView::RunHandler {
                handler,
                request: request_view(request),
                snapshot: snapshot@,
            },
            Effect::Diagnose { uri, version, snapshot } => EffectView::Diagnose {
                uri: uri@,
                version,
                snapshot: snapshot@,
            },
            Effect::Raise(event) => EffectView::Raise(event@),
            Effect::ProbeFlake { flake_path, lock_path, nix_binary } => EffectView::ProbeFlake {
                flake_path: flake_path@,
                lock_path: lock_path@,
                nix_binary: nix_binary@,
            },
        }
    }
}

/// The views of a list of effects.
pub open spec fn effects_view(effects: Seq<Effect>) -> Seq<EffectView> {
    Seq::new(effects.len(), |i: int| effects[i]@)
}

/// The diagnostics that a worker has for the event loop: those that the
/// handler computed, and none where the document is excluded from
/// diagnostics (no outcome) or the handler failed.
pub open spec fn diagnostics_of(
    outcome: Option<Result<Vec<Diagnostic>, HandlerError>>,
) -> Seq<Diagnostic> {
    match outcome {
        Some(Ok(list)) => list@,
        _ => Seq::empty(),
    }
}

/// The event with which a worker ends the computation of diagnostics.
pub fn diagnostics_event(
    uri: String,
    version: u64,
    outcome: Option<Result<Vec<Diagnostic>, HandlerError>>,
) -> (event: Event)
    ensures
        event@ == (EventView::Diagnostics { uri: uri@, version, diagnostics: diagnostics_of(outcome) }),
{
    let diagnostics = match outcome {
        Some(Ok(list)) => list,
        _ => Vec::new(),
    };
    Event::Diagnostics { uri, version, diagnostics }
}

/// The event with which a worker ends a request: the response that the
/// handler's outcome makes.
pub fn response_event(
    id: RequestId,
    outcome: Result<serde_json::Value, HandlerError>,
) -> (event: Event)
    ensures
        event@ == EventView::Response(reply_for(id, outcome)),
{
    Event::Response(result_to_response(id, outcome))
}

} // verus!
