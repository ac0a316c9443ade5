//! What holds of the server whatever it is sent.

use crate::config::Settings;
use crate::decode::{
    cancel_params, change_params, close_params, configuration_params_json, null_value,
    open_params, unit_refusal, value_is_null,
};
use crate::event::{EffectView, EventView, LoadFlakeView, MessageLevel};
use crate::flake::{
    any_missing, flake_file_name, flake_file_of, flake_loaded, flake_lock_name, kept_inputs,
    path_joined, FlakeProbe, ResolvedInput,
};
use crate::protocol::{
    code_number, error_reply, ok_reply, request_view, RequestView, ResponseView,
};
use crate::queue::number_id;
use crate::route::{notification_kind_of, route_of, NotificationKind, Route};
use crate::server::{
    config_section, edits_applied, lemma_edits_applied_wf, missing_inputs_warning,
    settings_error_message, ServerView, Step,
};
use crate::vfs::{
    file_path_uri, span_in, uri_file_path, ChangeSetView, FileId, VfsError, VfsView,
};
use lsp_server::{ErrorCode, Message, RequestId};
use lsp_types::{Diagnostic, TextDocumentContentChangeEvent};
use vstd::prelude::*;
use vstd::utf8::encode_utf8;

verus! {

/// Diagnostics are published exactly when they are news: the document is
/// open and their version is above the one published last for it. The
/// server then remembers that version; otherwise nothing changes.
pub proof fn law_diagnostics_published_iff_newer(
    s: ServerView,
    uri: Seq<char>,
    version: u64,
    diagnostics: Seq<Diagnostic>,
)
    requires
        s.wf(),
    ensures
        s.accepts_diagnostics(uri, version) ==> {
            let t = s.on_diagnostics(uri, version, diagnostics);
            &&& t.wf()
            &&& t.is_open(uri)
            &&& t.diagnostics_version(uri) == version
            &&& s.diagnostics_version(uri) < version
            &&& t.outbox == s.outbox.push(EffectView::PublishDiagnostics { uri, diagnostics })
        },
        !s.accepts_diagnostics(uri, version) ==> s.on_diagnostics(uri, version, diagnostics) == s,
{
    if s.accepts_diagnostics(uri, version) {
        let t = s.on_diagnostics(uri, version, diagnostics);
        let i = s.slot(uri);
        assert(t.opened[i].uri == uri);
        assert forall|a: int, b: int| 0 <= a < b < t.opened.len() implies (#[trigger] t.opened[a]).uri
            != (#[trigger] t.opened[b]).uri by {
            assert(t.opened[a].uri == s.opened[a].uri);
            assert(t.opened[b].uri == s.opened[b].uri);
        }
        t.lemma_one_entry_per_document(t.slot(uri), i);
    }
}

/// The change of an unknown document is no change: where the file system
/// holds no file for the URI, the edits leave the server as it was.
pub proof fn law_change_of_unknown_document(
    s: ServerView,
    uri: Seq<char>,
    edits: Seq<TextDocumentContentChangeEvent>,
)
    requires
        s.vfs.file_of_uri(uri) is Err,
    ensures
        s.on_did_change(uri, edits) == s,
{
}

/// An edit whose range does not lie in the content is passed over: the
/// edits before and after it apply as if it were not among them.
pub proof fn law_unfitting_edit_is_skipped(
    vfs: VfsView,
    file: FileId,
    edits: Seq<TextDocumentContentChangeEvent>,
    k: int,
)
    requires
        0 <= k < edits.len(),
        edits[k].range is Some,
        span_in(
            edits_applied(vfs, file, edits.take(k)).files[file.0 as int].content,
            edits[k].range->0,
        ) is None,
    ensures
        edits_applied(vfs, file, edits) == edits_applied(vfs, file, edits.remove(k)),
    decreases edits.len() - k,
{
    if k == edits.len() - 1 {
        assert(edits.drop_last() =~= edits.take(k));
        assert(edits.remove(k) =~= edits.take(k));
    } else {
        let shorter = edits.drop_last();
        assert(shorter.take(k) =~= edits.take(k));
        law_unfitting_edit_is_skipped(vfs, file, shorter, k);
        assert(edits.remove(k).drop_last() =~= shorter.remove(k));
        assert(edits.remove(k).last() == edits.last());
    }
}

/// A workspace without a flake file is no flake, and nothing is written.
pub proof fn law_no_flake_file(vfs: VfsView, flake_path: Seq<char>, lock_path: Seq<char>)
    ensures
        flake_loaded(vfs, flake_path, lock_path, FlakeProbe::RootMissing) == (
            Ok::<LoadFlakeView, Seq<char>>(LoadFlakeView::NotFlake),
            vfs,
        ),
{
}

/// A flake without a lock file has no inputs, and none is missing.
pub proof fn law_no_lock_file(
    vfs: VfsView,
    flake_path: Seq<char>,
    lock_path: Seq<char>,
    flake_src: Vec<u8>,
)
    requires
        flake_file_of(vfs, flake_path, flake_src@) is Ok,
    ensures
        ({
            let loaded = flake_loaded(
                vfs,
                flake_path,
                lock_path,
                FlakeProbe::LockMissing { flake_src },
            );
            &&& loaded.0 is Ok
            &&& loaded.0->Ok_0 is IsFlake
            &&& loaded.0->Ok_0->flake_info.input_store_paths.len() == 0
            &&& !loaded.0->Ok_0->missing_inputs
        }),
{
}

/// An input whose store path is not there on disk is left out of the
/// inputs that are kept, and the inputs count as missing; an input that is
/// kept is one that is there.
pub proof fn law_missing_input_is_excluded(inputs: Seq<ResolvedInput>, k: int)
    requires
        0 <= k < inputs.len(),
        !inputs[k].exists,
    ensures
        any_missing(inputs),
        kept_inputs(inputs) == kept_inputs(inputs.remove(k)),
        kept_inputs(inputs).len() < inputs.len(),
    decreases inputs.len(),
{
    lemma_kept_inputs_len(inputs.remove(k));
    if k == inputs.len() - 1 {
        assert(inputs.remove(k) =~= inputs.drop_last());
    } else {
        let shorter = inputs.drop_last();
        law_missing_input_is_excluded(shorter, k);
        assert(inputs.remove(k).drop_last() =~= shorter.remove(k));
        assert(inputs.remove(k).last() == inputs.last());
    }
}

/// No more inputs are kept than there are.
pub proof fn lemma_kept_inputs_len(inputs: Seq<ResolvedInput>)
    ensures
        kept_inputs(inputs).len() <= inputs.len(),
    decreases inputs.len(),
{
    if inputs.len() > 0 {
        lemma_kept_inputs_len(inputs.drop_last());
    }
}

/// Applying the pending changes leaves the files with nothing pending and
/// touches neither the open documents nor the requests.
pub proof fn lemma_apply_vfs_change_frame(s: ServerView)
    requires
        s.wf(),
    ensures
        s.apply_vfs_change().wf(),
        s.apply_vfs_change() == (ServerView {
            vfs: s.vfs.taken(),
            version: (s.version + 1) as u64,
            outbox: s.apply_vfs_change().outbox,
            ..s
        }),
{
    let version = (s.version + 1) as u64;
    let base = (ServerView { vfs: s.vfs.taken(), version, ..s }).emit(
        EffectView::ApplyChange(s.vfs.change),
    );
    base.lemma_changed_files_keeps(s.vfs.change.file_changes, version);
    let t = s.vfs.taken();
    assert(t.wf()) by {
        assert forall|k: int|
            0 <= k < t.change.file_changes.len() && #[trigger] t.change.is_last_for_file(
                k,
            ) implies t.files[t.change.file_changes[k].0.0 as int].content
            == t.change.file_changes[k].1 by {}
    }
}

/// Whether the input is the client opening the document.
pub open spec fn opens(step: Step, uri: Seq<char>) -> bool {
    match step {
        Step::Message(Message::Notification(n)) => n.method@ != "exit"@ && notification_kind_of(
            n.method@,
        ) == NotificationKind::DidOpen && (match open_params(n.params) {
            Some((opened, _)) => opened == uri,
            None => false,
        }),
        _ => false,
    }
}

/// Where the document is open after as before, what was published last
/// for it has not become older.
pub open spec fn versions_kept(s: ServerView, t: ServerView, uri: Seq<char>) -> bool {
    t.is_open(uri) ==> s.is_open(uri) && s.diagnostics_version(uri) <= t.diagnostics_version(uri)
}

/// A document is open where an entry for it stands, and what holds of
/// every such entry holds of the version published last.
proof fn lemma_versions_kept_by_entries(s: ServerView, t: ServerView, uri: Seq<char>)
    requires
        s.wf(),
        t.wf(),
        forall|j: int|
            0 <= j < t.opened.len() && (#[trigger] t.opened[j]).uri == uri ==> exists|i: int|
                0 <= i < s.opened.len() && (#[trigger] s.opened[i]).uri == uri && s.opened[i].version
                    <= t.opened[j].version,
    ensures
        versions_kept(s, t, uri),
{
    if t.is_open(uri) {
        let j = t.slot(uri);
        let i = choose|i: int|
            0 <= i < s.opened.len() && (#[trigger] s.opened[i]).uri == uri && s.opened[i].version
                <= t.opened[j].version;
        s.lemma_one_entry_per_document(s.slot(uri), i);
    }
}

/// Writing under a URI keeps the files valid.
pub proof fn lemma_set_uri_wf(vfs: VfsView, uri: Seq<char>, content: Seq<u8>)
    requires
        vfs.wf(),
        vfs.set_uri(uri, content) is Ok,
    ensures
        vfs.set_uri(uri, content)->Ok_0.1.wf(),
{
    let path = uri_file_path(uri)->0;
    lemma_set_path_wf(vfs, path, content);
}

/// Writing under a path keeps the files valid.
pub proof fn lemma_set_path_wf(vfs: VfsView, path: Seq<char>, content: Seq<u8>)
    requires
        vfs.wf(),
        vfs.set_path(path, content) is Ok,
    ensures
        vfs.set_path(path, content)->Ok_0.1.wf(),
{
    if vfs.knows_path(path) {
        vfs.lemma_with_content_wf(vfs.file_of_path(path), content);
    } else {
        vfs.lemma_with_file_wf(path, file_path_uri(path)->0, content);
    }
}

/// Loading the flake keeps the files valid.
pub proof fn lemma_flake_loaded_wf(
    vfs: VfsView,
    flake_path: Seq<char>,
    lock_path: Seq<char>,
    probe: FlakeProbe,
)
    requires
        vfs.wf(),
    ensures
        flake_loaded(vfs, flake_path, lock_path, probe).1.wf(),
{
    if probe.flake_src() is Some {
        if !vfs.knows_path(flake_path) && vfs.set_path(flake_path, probe.flake_src()->0) is Ok {
            lemma_set_path_wf(vfs, flake_path, probe.flake_src()->0);
        }
    }
}

/// Opening a document keeps the server valid and leaves what was
/// published for the other documents.
proof fn lemma_did_open(s: ServerView, opened: Seq<char>, text: Seq<char>, uri: Seq<char>)
    requires
        s.wf(),
    ensures
        s.on_did_open(opened, text).wf(),
        uri != opened ==> versions_kept(s, s.on_did_open(opened, text), uri),
{
    let a = s.opened_anew(opened);
    lemma_opened_anew_wf(s, opened);
    let t = s.on_did_open(opened, text);
    match s.vfs.set_uri(opened, encode_utf8(text)) {
        Ok((_, vfs)) => {
            lemma_set_uri_wf(s.vfs, opened, encode_utf8(text));
            lemma_apply_vfs_change_frame(ServerView { vfs, ..a });
            assert(t.opened == a.opened);
            if uri != opened {
                assert forall|j: int|
                    0 <= j < t.opened.len() && (#[trigger] t.opened[j]).uri == uri implies exists|
                    i: int,
                |
                    0 <= i < s.opened.len() && (#[trigger] s.opened[i]).uri == uri
                        && s.opened[i].version <= t.opened[j].version by {
                    assert(j < s.opened.len());
                    assert(s.opened[j] == t.opened[j]);
                }
                lemma_versions_kept_by_entries(s, t, uri);
            }
        },
        Err(_) => {},
    }
}

/// Closing a document keeps the server valid and leaves what was
/// published for the documents that stay open.
proof fn lemma_did_close(s: ServerView, closed: Seq<char>, uri: Seq<char>)
    requires
        s.wf(),
    ensures
        s.on_did_close(closed).wf(),
        versions_kept(s, s.on_did_close(closed), uri),
{
    let t = s.on_did_close(closed);
    if s.is_open(closed) {
        let i = s.slot(closed);
        assert forall|x: int, y: int| 0 <= x < y < t.opened.len() implies (#[trigger] t.opened[x]).uri
            != (#[trigger] t.opened[y]).uri by {
            let x0 = if x < i { x } else { x + 1 };
            let y0 = if y < i { y } else { y + 1 };
            assert(t.opened[x] == s.opened[x0]);
            assert(t.opened[y] == s.opened[y0]);
        }
        assert forall|j: int| 0 <= j < t.opened.len() && (#[trigger] t.opened[j]).uri == uri implies exists|
            k: int,
        |
            0 <= k < s.opened.len() && (#[trigger] s.opened[k]).uri == uri && s.opened[k].version
                <= t.opened[j].version by {
            let j0 = if j < i { j } else { j + 1 };
            assert(s.opened[j0] == t.opened[j]);
        }
        lemma_versions_kept_by_entries(s, t, uri);
    }
}

/// Taking in diagnostics keeps the server valid and makes nothing that
/// was published older.
proof fn lemma_diagnostics(
    s: ServerView,
    about: Seq<char>,
    version: u64,
    diagnostics: Seq<Diagnostic>,
    uri: Seq<char>,
)
    requires
        s.wf(),
    ensures
        s.on_diagnostics(about, version, diagnostics).wf(),
        versions_kept(s, s.on_diagnostics(about, version, diagnostics), uri),
{
    law_diagnostics_published_iff_newer(s, about, version, diagnostics);
    let t = s.on_diagnostics(about, version, diagnostics);
    if s.accepts_diagnostics(about, version) {
        let i = s.slot(about);
        assert forall|j: int| 0 <= j < t.opened.len() && (#[trigger] t.opened[j]).uri == uri implies exists|
            k: int,
        |
            0 <= k < s.opened.len() && (#[trigger] s.opened[k]).uri == uri && s.opened[k].version
                <= t.opened[j].version by {
            assert(s.opened[j].uri == uri);
        }
        lemma_versions_kept_by_entries(s, t, uri);
    }
}

/// Taking in the outcome of loading the flake keeps the server valid and
/// leaves the open documents alone.
proof fn lemma_flake(s: ServerView, outcome: Result<LoadFlakeView, Seq<char>>)
    requires
        s.wf(),
    ensures
        s.on_flake(outcome).wf(),
        s.on_flake(outcome).opened == s.opened,
{
    match outcome {
        Err(_) => {},
        Ok(LoadFlakeView::IsFlake { flake_info, missing_inputs }) => {
            let warned = if missing_inputs {
                s.show_message(MessageLevel::Warning, missing_inputs_warning())
            } else {
                s
            };
            warned.vfs.lemma_with_flake_info_wf(Some(flake_info));
            lemma_apply_vfs_change_frame(
                ServerView { vfs: warned.vfs.with_flake_info(Some(flake_info)), ..warned },
            );
        },
        Ok(LoadFlakeView::NotFlake) => {
            s.vfs.lemma_with_flake_info_wf(None);
            lemma_apply_vfs_change_frame(ServerView { vfs: s.vfs.with_flake_info(None), ..s });
        },
    }
}

/// Taking in the settings keeps the server valid and leaves the open
/// documents alone.
proof fn lemma_configured(s: ServerView, settings: Option<Settings>, then_load_flake: bool)
    requires
        s.wf(),
    ensures
        s.configuration_loaded(settings, then_load_flake).wf(),
        s.configuration_loaded(settings, then_load_flake).opened == s.opened,
{
    match settings {
        Some(st) => {
            let merged = ServerView { config: s.config.updated(st), ..s };
            let told = if st.errors().len() > 0 {
                merged.show_message(
                    MessageLevel::Error,
                    settings_error_message(st.errors()),
                )
            } else {
                merged
            };
            let version = (s.version + 1) as u64;
            (ServerView { version, ..told }).lemma_diagnose_opened_keeps(
                told.opened.len() as int,
                version,
            );
        },
        None => {},
    }
}

/// Taking in a message of the client keeps the server valid, and makes
/// nothing that was published older unless it opens the document.
proof fn lemma_message(s: ServerView, message: Message, uri: Seq<char>)
    requires
        s.wf(),
    ensures
        s.on_message(message).wf(),
        !opens(Step::Message(message), uri) ==> versions_kept(s, s.on_message(message), uri),
{
    match message {
        Message::Request(_) => {},
        Message::Response(_) => {},
        Message::Notification(n) => {
            if n.method@ != "exit"@ {
                match notification_kind_of(n.method@) {
                    NotificationKind::DidOpen => {
                        match open_params(n.params) {
                            Some((opened, text)) => {
                                lemma_did_open(s, opened, text, uri);
                            },
                            None => {},
                        }
                    },
                    NotificationKind::DidClose => {
                        match close_params(n.params) {
                            Some(closed) => {
                                lemma_did_close(s, closed, uri);
                            },
                            None => {},
                        }
                    },
                    NotificationKind::DidChange => {
                        match change_params(n.params) {
                            Some((changed, edits)) => {
                                match s.vfs.file_of_uri(changed) {
                                    Ok(file) => {
                                        lemma_edits_applied_wf(s.vfs, file, edits);
                                        lemma_apply_vfs_change_frame(
                                            ServerView {
                                                vfs: edits_applied(s.vfs, file, edits),
                                                ..s
                                            },
                                        );
                                    },
                                    Err(_) => {},
                                }
                            },
                            None => {},
                        }
                    },
                    _ => {},
                }
            }
        },
    }
}

/// Every input keeps the server valid, and makes nothing that was
/// published for a document older unless it opens the document.
pub proof fn lemma_step(s: ServerView, step: Step, uri: Seq<char>)
    requires
        s.wf(),
    ensures
        s.step(step).wf(),
        !opens(step, uri) ==> versions_kept(s, s.step(step), uri),
{
    match step {
        Step::Message(message) => {
            lemma_message(s, message, uri);
        },
        Step::Event(event) => {
            match event {
                EventView::Diagnostics { uri: about, version, diagnostics } => {
                    lemma_diagnostics(s, about, version, diagnostics, uri);
                },
                EventView::LoadFlake(outcome) => {
                    lemma_flake(s, outcome);
                },
                _ => {},
            }
        },
        Step::Configured(settings, then_load_flake) => {
            lemma_configured(s, settings, then_load_flake);
        },
        Step::FlakeProbed(probe) => {
            let flake_path = path_joined(
                s.config.root_path,
                flake_file_name(),
            );
            let lock_path = path_joined(
                s.config.root_path,
                flake_lock_name(),
            );
            lemma_flake_loaded_wf(s.vfs, flake_path, lock_path, probe);
            let loaded = flake_loaded(s.vfs, flake_path, lock_path, probe);
            lemma_flake(ServerView { vfs: loaded.1, ..s }, loaded.0);
        },
    }
}

/// A run of inputs keeps the server valid, and makes nothing that was
/// published for a document older unless the document is opened in it.
pub proof fn lemma_run(s: ServerView, steps: Seq<Step>, uri: Seq<char>)
    requires
        s.wf(),
    ensures
        s.run(steps).wf(),
        (forall|i: int| 0 <= i < steps.len() ==> !opens(#[trigger] steps[i], uri)) ==> versions_kept(
            s,
            s.run(steps),
            uri,
        ),
    decreases steps.len(),
{
    if steps.len() > 0 {
        lemma_run(s, steps.drop_last(), uri);
        lemma_step(s.run(steps.drop_last()), steps.last(), uri);
        if forall|i: int| 0 <= i < steps.len() ==> !opens(#[trigger] steps[i], uri) {
            assert forall|i: int| 0 <= i < steps.drop_last().len() implies !opens(
                #[trigger] steps.drop_last()[i],
                uri,
            ) by {
                assert(steps.drop_last()[i] == steps[i]);
            }
            assert(!opens(steps[steps.len() - 1], uri));
        }
    }
}

/// The server stays valid whatever it is sent.
pub proof fn law_server_stays_valid(s: ServerView, steps: Seq<Step>)
    requires
        s.wf(),
    ensures
        s.run(steps).wf(),
{
    lemma_run(s, steps, Seq::empty());
}

/// What is published for a document carries ever later versions: of two
/// lots of diagnostics that are published for it, the second has the
/// greater version, whatever the server took in between, as long as the
/// document was not opened anew.
pub proof fn law_published_versions_increase(
    s: ServerView,
    uri: Seq<char>,
    first: u64,
    first_diagnostics: Seq<Diagnostic>,
    between: Seq<Step>,
    second: u64,
)
    requires
        s.wf(),
        s.accepts_diagnostics(uri, first),
        forall|i: int| 0 <= i < between.len() ==> !opens(#[trigger] between[i], uri),
        s.on_diagnostics(uri, first, first_diagnostics).run(between).accepts_diagnostics(uri, second),
    ensures
        first < second,
{
    law_diagnostics_published_iff_newer(s, uri, first, first_diagnostics);
    lemma_run(s.on_diagnostics(uri, first, first_diagnostics), between, uri);
}

/// Whether the effect is a response to the request.
pub open spec fn answers(effect: EffectView, id: RequestId) -> bool {
    effect is Respond && effect->Respond_0.id == id
}

/// How many of the effects are responses to the request.
pub open spec fn responses_to(effects: Seq<EffectView>, id: RequestId) -> nat
    decreases effects.len(),
{
    if effects.len() == 0 {
        0
    } else if answers(effects.last(), id) {
        responses_to(effects.drop_last(), id) + 1
    } else {
        responses_to(effects.drop_last(), id)
    }
}

/// One more effect adds one response where it is one, and none else.
proof fn lemma_responses_push(effects: Seq<EffectView>, effect: EffectView, id: RequestId)
    ensures
        responses_to(effects.push(effect), id) == responses_to(effects, id) + (if answers(
            effect,
            id,
        ) {
            1nat
        } else {
            0nat
        }),
{
    assert(effects.push(effect).drop_last() =~= effects);
}

/// Looking at changed files sends no response.
proof fn lemma_changed_files_no_response(
    s: ServerView,
    changes: Seq<(FileId, Seq<u8>)>,
    version: u64,
    id: RequestId,
)
    ensures
        responses_to(s.changed_files(changes, version).outbox, id) == responses_to(s.outbox, id),
    decreases changes.len(),
{
    if changes.len() > 0 {
        lemma_changed_files_no_response(s, changes.drop_last(), version, id);
        let before = s.changed_files(changes.drop_last(), version);
        let uri = before.vfs.files[changes.last().0.0 as int].uri;
        lemma_responses_push(
            before.outbox,
            EffectView::Diagnose { uri, version, snapshot: before.snapshot() },
            id,
        );
        lemma_responses_push(
            before.outbox,
            EffectView::Raise(EventView::Diagnostics { uri, version, diagnostics: Seq::empty() }),
            id,
        );
    }
}

/// Asking for the diagnostics of the open documents sends no response.
proof fn lemma_diagnose_opened_no_response(s: ServerView, n: int, version: u64, id: RequestId)
    ensures
        responses_to(s.diagnose_opened(n, version).outbox, id) == responses_to(s.outbox, id),
    decreases n,
{
    if n > 0 {
        lemma_diagnose_opened_no_response(s, n - 1, version, id);
        let before = s.diagnose_opened(n - 1, version);
        lemma_responses_push(
            before.outbox,
            EffectView::Diagnose { uri: s.opened[n - 1].uri, version, snapshot: before.snapshot() },
            id,
        );
    }
}

/// Applying the pending changes sends no response and leaves the requests
/// in flight alone.
proof fn lemma_apply_vfs_change_no_response(s: ServerView, id: RequestId)
    requires
        s.wf(),
    ensures
        responses_to(s.apply_vfs_change().outbox, id) == responses_to(s.outbox, id),
        s.apply_vfs_change().incoming == s.incoming,
{
    let version = (s.version + 1) as u64;
    let handed = (ServerView { vfs: s.vfs.taken(), version, ..s }).emit(
        EffectView::ApplyChange(s.vfs.change),
    );
    lemma_responses_push(s.outbox, EffectView::ApplyChange(s.vfs.change), id);
    lemma_changed_files_no_response(handed, s.vfs.change.file_changes, version, id);
    lemma_apply_vfs_change_frame(s);
}

/// Whether the input is a request of the client with this identifier.
pub open spec fn requests(step: Step, id: RequestId) -> bool {
    match step {
        Step::Message(Message::Request(request)) => request.id == id,
        _ => false,
    }
}

/// An input that is not the request itself sends at most one response to
/// it, and only if it was in flight; after a response it is in flight no
/// longer, and it does not come to be in flight.
pub proof fn lemma_step_responses(s: ServerView, step: Step, id: RequestId)
    requires
        s.wf(),
        !requests(step, id),
    ensures
        ({
            let t = s.step(step);
            let sent = responses_to(t.outbox, id) - responses_to(s.outbox, id);
            &&& 0 <= sent <= 1
            &&& sent == 1 <==> s.incoming.contains(id) && !t.incoming.contains(id)
            &&& t.incoming.contains(id) ==> s.incoming.contains(id)
        }),
{
    let t = s.step(step);
    match step {
        Step::Message(message) => {
            match message {
                Message::Request(request) => {
                    let r = request_view(request);
                    lemma_responses_push(
                        s.outbox,
                        EffectView::Respond(
                            error_reply(
                                r.id,
                                code_number(ErrorCode::InvalidRequest),
                                "Shutdown already requested."@,
                            ),
                        ),
                        id,
                    );
                    if !s.is_shutdown {
                        match route_of(r.method) {
                            Route::Shutdown => {
                                lemma_responses_push(
                                    s.outbox,
                                    EffectView::Respond(ok_reply(r.id, null_value())),
                                    id,
                                );
                                lemma_responses_push(
                                    s.outbox,
                                    EffectView::Respond(
                                        error_reply(
                                            r.id,
                                            code_number(ErrorCode::InvalidParams),
                                            unit_refusal(r.params),
                                        ),
                                    ),
                                    id,
                                );
                            },
                            Route::Snapshot(handler) => {
                                lemma_responses_push(
                                    s.outbox,
                                    EffectView::RunHandler {
                                        handler,
                                        request: r,
                                        snapshot: s.snapshot(),
                                    },
                                    id,
                                );
                            },
                            Route::Unknown => {
                                lemma_responses_push(
                                    s.outbox,
                                    EffectView::Respond(
                                        error_reply(
                                            r.id,
                                            code_number(ErrorCode::MethodNotFound),
                                            Seq::<char>::empty(),
                                        ),
                                    ),
                                    id,
                                );
                            },
                        }
                    }
                },
                Message::Response(_) => {},
                Message::Notification(n) => {
                    if n.method@ != "exit"@ {
                        lemma_notification_responses(s, n.method@, n.params, id);
                    }
                },
            }
        },
        Step::Event(event) => {
            match event {
                EventView::Response(response) => {
                    lemma_responses_push(s.outbox, EffectView::Respond(response), id);
                },
                EventView::Diagnostics { uri, version, diagnostics } => {
                    lemma_responses_push(
                        s.outbox,
                        EffectView::PublishDiagnostics { uri, diagnostics },
                        id,
                    );
                },
                EventView::ClientExited => {},
                EventView::LoadFlake(outcome) => {
                    lemma_flake_responses(s, outcome, id);
                },
            }
        },
        Step::Configured(settings, then_load_flake) => {
            lemma_configured_responses(s, settings, then_load_flake, id);
        },
        Step::FlakeProbed(probe) => {
            let flake_path = path_joined(
                s.config.root_path,
                flake_file_name(),
            );
            let lock_path = path_joined(
                s.config.root_path,
                flake_lock_name(),
            );
            lemma_flake_loaded_wf(s.vfs, flake_path, lock_path, probe);
            let loaded = flake_loaded(s.vfs, flake_path, lock_path, probe);
            lemma_flake_responses(ServerView { vfs: loaded.1, ..s }, loaded.0, id);
        },
    }
}

/// Taking in the outcome of loading the flake sends no response.
proof fn lemma_flake_responses(
    s: ServerView,
    outcome: Result<LoadFlakeView, Seq<char>>,
    id: RequestId,
)
    requires
        s.wf(),
    ensures
        responses_to(s.on_flake(outcome).outbox, id) == responses_to(s.outbox, id),
        s.on_flake(outcome).incoming == s.incoming,
{
    match outcome {
        Err(message) => {
            lemma_responses_push(
                s.outbox,
                EffectView::ShowMessage {
                    level: MessageLevel::Error,
                    message: "Failed to load flake workspace: "@ + message,
                },
                id,
            );
        },
        Ok(LoadFlakeView::IsFlake { flake_info, missing_inputs }) => {
            let warned = if missing_inputs {
                s.show_message(MessageLevel::Warning, missing_inputs_warning())
            } else {
                s
            };
            lemma_responses_push(
                s.outbox,
                EffectView::ShowMessage {
                    level: MessageLevel::Warning,
                    message: missing_inputs_warning(),
                },
                id,
            );
            warned.vfs.lemma_with_flake_info_wf(Some(flake_info));
            lemma_apply_vfs_change_no_response(
                ServerView { vfs: warned.vfs.with_flake_info(Some(flake_info)), ..warned },
                id,
            );
        },
        Ok(LoadFlakeView::NotFlake) => {
            s.vfs.lemma_with_flake_info_wf(None);
            lemma_apply_vfs_change_no_response(
                ServerView { vfs: s.vfs.with_flake_info(None), ..s },
                id,
            );
        },
    }
}

/// Taking in the settings sends no response.
proof fn lemma_configured_responses(
    s: ServerView,
    settings: Option<Settings>,
    then_load_flake: bool,
    id: RequestId,
)
    requires
        s.wf(),
    ensures
        responses_to(s.configuration_loaded(settings, then_load_flake).outbox, id) == responses_to(
            s.outbox,
            id,
        ),
        s.configuration_loaded(settings, then_load_flake).incoming == s.incoming,
{
    let configured = match settings {
        Some(st) => s.update_config(st),
        None => s,
    };
    match settings {
        Some(st) => {
            let merged = ServerView { config: s.config.updated(st), ..s };
            let told = if st.errors().len() > 0 {
                merged.show_message(
                    MessageLevel::Error,
                    settings_error_message(st.errors()),
                )
            } else {
                merged
            };
            lemma_responses_push(
                s.outbox,
                EffectView::ShowMessage {
                    level: MessageLevel::Error,
                    message: settings_error_message(st.errors()),
                },
                id,
            );
            let version = (s.version + 1) as u64;
            (ServerView { version, ..told }).lemma_diagnose_opened_keeps(
                told.opened.len() as int,
                version,
            );
            lemma_diagnose_opened_no_response(
                ServerView { version, ..told },
                told.opened.len() as int,
                version,
                id,
            );
        },
        None => {},
    }
    lemma_responses_push(
        configured.outbox,
        EffectView::ProbeFlake {
            flake_path: path_joined(
                configured.config.root_path,
                flake_file_name(),
            ),
            lock_path: path_joined(
                configured.config.root_path,
                flake_lock_name(),
            ),
            nix_binary: configured.config.nix_binary,
        },
        id,
    );
}

/// A notification sends a response only as the cancellation of a request
/// in flight.
proof fn lemma_notification_responses(
    s: ServerView,
    method: Seq<char>,
    params: serde_json::Value,
    id: RequestId,
)
    requires
        s.wf(),
    ensures
        ({
            let t = s.on_notification(method, params);
            let sent = responses_to(t.outbox, id) - responses_to(s.outbox, id);
            &&& 0 <= sent <= 1
            &&& sent == 1 <==> s.incoming.contains(id) && !t.incoming.contains(id)
            &&& t.incoming.contains(id) ==> s.incoming.contains(id)
        }),
{
    match notification_kind_of(method) {
        NotificationKind::Cancel => {
            match cancel_params(params) {
                Some(cancelled) => {
                    lemma_responses_push(
                        s.outbox,
                        EffectView::Respond(
                            error_reply(
                                cancelled,
                                code_number(ErrorCode::ServerCancelled),
                                "Cancelled"@,
                            ),
                        ),
                        id,
                    );
                },
                None => {},
            }
        },
        NotificationKind::DidOpen => {
            match open_params(params) {
                Some((opened, text)) => {
                    lemma_did_open(s, opened, text, opened);
                    let a = s.opened_anew(opened);
                    match a.vfs.set_uri(opened, encode_utf8(text)) {
                        Ok((_, vfs)) => {
                            lemma_set_uri_wf(a.vfs, opened, encode_utf8(text));
                            lemma_opened_anew_wf(s, opened);
                            lemma_apply_vfs_change_no_response(ServerView { vfs, ..a }, id);
                        },
                        Err(_) => {},
                    }
                },
                None => {},
            }
        },
        NotificationKind::DidChange => {
            match change_params(params) {
                Some((changed, edits)) => {
                    match s.vfs.file_of_uri(changed) {
                        Ok(file) => {
                            lemma_edits_applied_wf(s.vfs, file, edits);
                            lemma_apply_vfs_change_no_response(
                                ServerView { vfs: edits_applied(s.vfs, file, edits), ..s },
                                id,
                            );
                        },
                        Err(_) => {},
                    }
                },
                None => {},
            }
        },
        NotificationKind::DidChangeConfiguration => {
            if s.next_request < i32::MAX {
                lemma_responses_push(
                    s.outbox,
                    EffectView::Request(
                        RequestView {
                            id: number_id(s.next_request as i32),
                            method: "workspace/configuration"@,
                            params: configuration_params_json(
                                seq![(None, Some(config_section()))],
                            ),
                        },
                    ),
                    id,
                );
            }
        },
        _ => {},
    }
}

/// Noting a document as opened keeps the server valid.
proof fn lemma_opened_anew_wf(s: ServerView, opened: Seq<char>)
    requires
        s.wf(),
    ensures
        s.opened_anew(opened).wf(),
{
    let a = s.opened_anew(opened);
    if s.is_open(opened) {
        assert forall|x: int, y: int| 0 <= x < y < a.opened.len() implies (#[trigger] a.opened[x]).uri
            != (#[trigger] a.opened[y]).uri by {
            assert(a.opened[x].uri == s.opened[x].uri);
            assert(a.opened[y].uri == s.opened[y].uri);
        }
    } else {
        assert forall|x: int, y: int| 0 <= x < y < a.opened.len() implies (#[trigger] a.opened[x]).uri
            != (#[trigger] a.opened[y]).uri by {
            assert(a.opened[x] == s.opened[x]);
            if y < s.opened.len() {
                assert(a.opened[y] == s.opened[y]);
            }
        }
    }
}

/// A run of inputs without the request itself sends at most one response
/// to it: one exactly if the request was in flight and is so no longer.
pub proof fn lemma_run_responses(s: ServerView, steps: Seq<Step>, id: RequestId)
    requires
        s.wf(),
        forall|i: int| 0 <= i < steps.len() ==> !requests(#[trigger] steps[i], id),
    ensures
        ({
            let t = s.run(steps);
            let sent = responses_to(t.outbox, id) - responses_to(s.outbox, id);
            &&& t.wf()
            &&& 0 <= sent <= 1
            &&& sent == 1 <==> s.incoming.contains(id) && !t.incoming.contains(id)
            &&& t.incoming.contains(id) ==> s.incoming.contains(id)
        }),
    decreases steps.len(),
{
    if steps.len() > 0 {
        assert forall|i: int| 0 <= i < steps.drop_last().len() implies !requests(
            #[trigger] steps.drop_last()[i],
            id,
        ) by {
            assert(steps.drop_last()[i] == steps[i]);
        }
        assert(!requests(steps[steps.len() - 1], id));
        lemma_run_responses(s, steps.drop_last(), id);
        let mid = s.run(steps.drop_last());
        lemma_step_responses(mid, steps.last(), id);
        lemma_step(mid, steps.last(), Seq::empty());
        assert(s.run(steps) == mid.step(steps.last()));
    }
}

/// A request is answered at once or is in flight, never both: after
/// shutdown it is refused, the request to shut down is answered on the
/// spot, a request for a handler goes to a worker and is in flight, and
/// any other is answered as unknown.
pub proof fn law_request_answered_or_in_flight(s: ServerView, request: RequestView)
    requires
        s.wf(),
    ensures
        ({
            let t = s.on_request(request);
            let handled = !s.is_shutdown && route_of(request.method) is Snapshot;
            &&& t.wf()
            &&& t.outbox.len() == s.outbox.len() + 1
            &&& t.outbox.drop_last() == s.outbox
            &&& handled ==> t.incoming == s.incoming.insert(request.id) && t.outbox.last()
                == (EffectView::RunHandler {
                handler: route_of(request.method)->Snapshot_0,
                request,
                snapshot: s.snapshot(),
            })
            &&& !handled ==> t.incoming == s.incoming && answers(t.outbox.last(), request.id)
            &&& s.is_shutdown ==> t.outbox.last() == EffectView::Respond(
                error_reply(
                    request.id,
                    code_number(ErrorCode::InvalidRequest),
                    "Shutdown already requested."@,
                ),
            )
        }),
{
    let t = s.on_request(request);
    assert(t.outbox.drop_last() =~= s.outbox);
}

/// A request to shut down without parameters is granted: shutdown is
/// noted and the reply carries the null of JSON.
pub proof fn law_shutdown_is_acknowledged(s: ServerView, request: RequestView)
    requires
        !s.is_shutdown,
        route_of(request.method) == Route::Shutdown,
        value_is_null(request.params),
    ensures
        s.on_request(request).is_shutdown,
        s.on_request(request).outbox == s.outbox.push(
            EffectView::Respond(ok_reply(request.id, null_value())),
        ),
        value_is_null(null_value()),
{
}

/// The cancellation of a request that is not in flight changes nothing.
pub proof fn law_idle_cancellation(s: ServerView, id: RequestId)
    requires
        !s.incoming.contains(id),
    ensures
        s.on_cancel(id) == s,
{
}

/// Exactly one response is sent for a request: from the moment it comes
/// in, whatever else the server takes in, the responses to it number one
/// once it is in flight no longer, and none before.
pub proof fn law_one_response_per_request(s: ServerView, request: RequestView, after: Seq<Step>)
    requires
        s.wf(),
        !s.incoming.contains(request.id),
        forall|i: int| 0 <= i < after.len() ==> !requests(#[trigger] after[i], request.id),
    ensures
        ({
            let t = s.on_request(request).run(after);
            let sent = responses_to(t.outbox, request.id) - responses_to(s.outbox, request.id);
            &&& 0 <= sent <= 1
            &&& sent == 1 <==> !t.incoming.contains(request.id)
        }),
{
    law_request_answered_or_in_flight(s, request);
    let a = s.on_request(request);
    lemma_responses_push(s.outbox, a.outbox.last(), request.id);
    assert(a.outbox =~= s.outbox.push(a.outbox.last()));
    lemma_run_responses(a, after, request.id);
}

/// A cancelled request gets a response with the code of a cancellation,
/// and nothing more: whatever a worker says of it later is dropped.
pub proof fn law_cancelled_request(s: ServerView, id: RequestId, after: Seq<Step>)
    requires
        s.wf(),
        s.incoming.contains(id),
        forall|i: int| 0 <= i < after.len() ==> !requests(#[trigger] after[i], id),
    ensures
        ({
            let cancelled = s.on_cancel(id);
            &&& cancelled.outbox == s.outbox.push(
                EffectView::Respond(
                    error_reply(id, code_number(ErrorCode::ServerCancelled), "Cancelled"@),
                ),
            )
            &&& !cancelled.incoming.contains(id)
            &&& responses_to(cancelled.run(after).outbox, id) == responses_to(cancelled.outbox, id)
            &&& forall|response: ResponseView|
                response.id == id ==> cancelled.on_response(response) == cancelled
        }),
{
    lemma_run_responses(s.on_cancel(id), after, id);
}

/// A fresh snapshot sees every change that went to the analysis, and
/// nothing later: once the pending changes are applied, nothing is left
/// pending, each changed file has the content that the last change of it
/// wrote, and a snapshot holds these files.
pub proof fn law_snapshot_observes_changes(s: ServerView, k: int)
    requires
        s.wf(),
        0 <= k < s.vfs.change.file_changes.len(),
        s.vfs.change.is_last_for_file(k),
    ensures
        ({
            let t = s.apply_vfs_change();
            let change = s.vfs.change.file_changes[k];
            &&& t.outbox.len() > s.outbox.len()
            &&& t.outbox[s.outbox.len() as int] == EffectView::ApplyChange(s.vfs.change)
            &&& t.vfs.change == ChangeSetView::empty()
            &&& t.snapshot().vfs == t.vfs
            &&& t.snapshot().vfs.files[change.0.0 as int].content == change.1
        }),
{
    lemma_apply_vfs_change_frame(s);
    let version = (s.version + 1) as u64;
    let handed = (ServerView { vfs: s.vfs.taken(), version, ..s }).emit(
        EffectView::ApplyChange(s.vfs.change),
    );
    lemma_changed_files_prefix(handed, s.vfs.change.file_changes, version);
    let t = s.apply_vfs_change();
    assert(t == handed.changed_files(s.vfs.change.file_changes, version));
    assert(handed.outbox[s.outbox.len() as int] == EffectView::ApplyChange(s.vfs.change));
    assert(t.outbox[s.outbox.len() as int] == handed.outbox[s.outbox.len() as int]);
    assert(s.vfs.has_file(s.vfs.change.file_changes[k].0));
}

/// Looking at changed files adds to what was asked for and takes nothing away.
proof fn lemma_changed_files_prefix(s: ServerView, changes: Seq<(FileId, Seq<u8>)>, version: u64)
    ensures
        s.outbox.len() <= s.changed_files(changes, version).outbox.len(),
        forall|i: int|
            0 <= i < s.outbox.len() ==> s.changed_files(changes, version).outbox[i] == s.outbox[i],
    decreases changes.len(),
{
    if changes.len() > 0 {
        lemma_changed_files_prefix(s, changes.drop_last(), version);
    }
}

/// The pending changes go to the analysis once and whole: the change set
/// is the first thing asked for, nothing that follows hands over changes
/// again, and the contents of the files stay as they are.
pub proof fn law_changes_are_handed_over_once(s: ServerView, i: int)
    requires
        s.wf(),
        s.outbox.len() < i < s.apply_vfs_change().outbox.len(),
    ensures
        ({
            let t = s.apply_vfs_change();
            &&& t.outbox[s.outbox.len() as int] == EffectView::ApplyChange(s.vfs.change)
            &&& !(t.outbox[i] is ApplyChange)
            &&& t.vfs.files == s.vfs.files
            &&& forall|k: int| 0 <= k < s.outbox.len() ==> t.outbox[k] == s.outbox[k]
        }),
{
    lemma_apply_vfs_change_frame(s);
    let version = (s.version + 1) as u64;
    let handed = (ServerView { vfs: s.vfs.taken(), version, ..s }).emit(
        EffectView::ApplyChange(s.vfs.change),
    );
    lemma_changed_files_prefix(handed, s.vfs.change.file_changes, version);
    lemma_changed_files_kinds(handed, s.vfs.change.file_changes, version, i);
    let t = s.apply_vfs_change();
    assert(t.outbox[s.outbox.len() as int] == handed.outbox[s.outbox.len() as int]);
    assert forall|k: int| 0 <= k < s.outbox.len() implies t.outbox[k] == s.outbox[k] by {
        assert(t.outbox[k] == handed.outbox[k]);
    }
}

/// What looking at changed files asks for is the computing or the
/// clearing of diagnostics.
proof fn lemma_changed_files_kinds(
    s: ServerView,
    changes: Seq<(FileId, Seq<u8>)>,
    version: u64,
    i: int,
)
    requires
        s.outbox.len() <= i < s.changed_files(changes, version).outbox.len(),
    ensures
        s.changed_files(changes, version).outbox[i] is Diagnose || s.changed_files(
            changes,
            version,
        ).outbox[i] is Raise,
    decreases changes.len(),
{
    if changes.len() > 0 {
        let before = s.changed_files(changes.drop_last(), version);
        s.lemma_changed_files_keeps(changes.drop_last(), version);
        if i < before.outbox.len() {
            lemma_changed_files_kinds(s, changes.drop_last(), version, i);
        }
    }
}

/// Every snapshot that goes out with the diagnostics of a change holds the
/// files as the change left them.
pub proof fn law_diagnostics_see_the_change(s: ServerView, i: int)
    requires
        s.wf(),
        s.outbox.len() < i < s.apply_vfs_change().outbox.len(),
    ensures
        ({
            let t = s.apply_vfs_change();
            t.outbox[i] is Diagnose ==> t.outbox[i]->Diagnose_snapshot == t.snapshot()
                && t.outbox[i]->Diagnose_version == t.version
        }),
{
    lemma_apply_vfs_change_frame(s);
    let version = (s.version + 1) as u64;
    let handed = (ServerView { vfs: s.vfs.taken(), version, ..s }).emit(
        EffectView::ApplyChange(s.vfs.change),
    );
    lemma_changed_files_snapshots(handed, s.vfs.change.file_changes, version, i);
}

/// What looking at changed files asks for carries the snapshot of the state.
proof fn lemma_changed_files_snapshots(
    s: ServerView,
    changes: Seq<(FileId, Seq<u8>)>,
    version: u64,
    i: int,
)
    requires
        s.outbox.len() <= i < s.changed_files(changes, version).outbox.len(),
    ensures
        ({
            let t = s.changed_files(changes, version);
            t.outbox[i] is Diagnose ==> t.outbox[i]->Diagnose_snapshot == s.snapshot()
                && t.outbox[i]->Diagnose_version == version
        }),
    decreases changes.len(),
{
    if changes.len() > 0 {
        let before = s.changed_files(changes.drop_last(), version);
        s.lemma_changed_files_keeps(changes.drop_last(), version);
        if i < before.outbox.len() {
            lemma_changed_files_snapshots(s, changes.drop_last(), version, i);
        }
    }
}

/// Taking in the same settings twice gives the configuration that taking
/// them in once gives; and settings that do not bear on the diagnostics
/// give out no version and ask for no diagnostics.
pub proof fn law_configuration_is_idempotent(s: ServerView, settings: Settings)
    requires
        s.wf(),
    ensures
        s.update_config(settings).update_config(settings).config == s.update_config(settings).config,
        s.update_config(settings).config == s.config.updated(settings),
        !settings.affects_diagnostics() ==> s.update_config(settings) == (ServerView {
            config: s.config.updated(settings),
            outbox: if settings.errors().len() > 0 {
                s.outbox.push(
                    EffectView::ShowMessage {
                        level: MessageLevel::Error,
                        message: settings_error_message(settings.errors()),
                    },
                )
            } else {
                s.outbox
            },
            ..s
        }),
{
    let merged = ServerView { config: s.config.updated(settings), ..s };
    let told = if settings.errors().len() > 0 {
        merged.show_message(
            MessageLevel::Error,
            settings_error_message(settings.errors()),
        )
    } else {
        merged
    };
    let version = (s.version + 1) as u64;
    (ServerView { version, ..told }).lemma_diagnose_opened_keeps(told.opened.len() as int, version);
    let once = s.update_config(settings);
    let merged2 = ServerView { config: once.config.updated(settings), ..once };
    let told2 = if settings.errors().len() > 0 {
        merged2.show_message(
            MessageLevel::Error,
            settings_error_message(settings.errors()),
        )
    } else {
        merged2
    };
    let version2 = (once.version + 1) as u64;
    (ServerView { version: version2, ..told2 }).lemma_diagnose_opened_keeps(
        told2.opened.len() as int,
        version2,
    );
}

/// A document that is opened and then closed leaves its text in the file
/// system: the file of its URI holds the bytes of the text, and the
/// document is open no longer.
pub proof fn law_open_then_close_keeps_text(s: ServerView, uri: Seq<char>, text: Seq<char>)
    requires
        s.wf(),
        s.vfs.set_uri(uri, encode_utf8(text)) is Ok,
    ensures
        ({
            let t = s.on_did_open(uri, text).on_did_close(uri);
            let file = s.vfs.set_uri(uri, encode_utf8(text))->Ok_0.0;
            &&& !t.is_open(uri)
            &&& t.vfs.file_of_uri(uri) == Ok::<FileId, VfsError>(file)
            &&& t.vfs.files[file.0 as int].content == encode_utf8(text)
        }),
{
    let content = encode_utf8(text);
    let a = s.opened_anew(uri);
    lemma_opened_anew_wf(s, uri);
    let (file, vfs) = s.vfs.set_uri(uri, content)->Ok_0;
    lemma_set_uri_wf(s.vfs, uri, content);
    lemma_apply_vfs_change_frame(ServerView { vfs, ..a });
    let o = s.on_did_open(uri, text);
    let t = o.on_did_close(uri);
    let path = uri_file_path(uri)->0;
    // The file is held under the path of the URI.
    assert(vfs.files[file.0 as int].path == path && file.0 < vfs.files.len() && vfs.files[file.0 as int].content
        == content);
    assert(t.vfs.files == vfs.files);
    assert(t.vfs.knows_path(path));
    vfs.lemma_one_file_per_path(t.vfs.file_of_path(path).0 as int, file.0 as int);
    // Closing takes the one entry of the document away.
    lemma_did_close(o, uri, uri);
    if o.is_open(uri) {
        let i = o.slot(uri);
        if t.is_open(uri) {
            let j = t.slot(uri);
            let j0 = if j < i { j } else { j + 1 };
            assert(t.opened[j] == o.opened[j0]);
            o.lemma_one_entry_per_document(j0, i);
        }
    }
}

/// Every file that `before` holds, `after` holds under the same identifier,
/// path and URI.
pub open spec fn files_kept(before: VfsView, after: VfsView) -> bool {
    &&& before.files.len() <= after.files.len()
    &&& forall|i: int|
        0 <= i < before.files.len() ==> (#[trigger] after.files[i]).path == before.files[i].path
            && after.files[i].uri == before.files[i].uri
}

/// Edits keep the files that there are.
proof fn lemma_edits_keep_files(
    vfs: VfsView,
    file: FileId,
    edits: Seq<TextDocumentContentChangeEvent>,
)
    requires
        vfs.has_file(file),
    ensures
        files_kept(vfs, edits_applied(vfs, file, edits)),
        edits_applied(vfs, file, edits).files.len() == vfs.files.len(),
    decreases edits.len(),
{
    if edits.len() > 0 {
        lemma_edits_keep_files(vfs, file, edits.drop_last());
    }
}

/// A file that is held under a path is found under it.
proof fn lemma_known_paths_are_kept(before: VfsView, after: VfsView, path: Seq<char>)
    requires
        files_kept(before, after),
        before.knows_path(path),
    ensures
        after.knows_path(path),
{
    let i = choose|i: int| 0 <= i < before.files.len() && (#[trigger] before.files[i]).path == path;
    assert(after.files[i].path == path);
}

/// Every input keeps the files that there are.
pub proof fn lemma_step_keeps_files(s: ServerView, step: Step)
    requires
        s.wf(),
    ensures
        files_kept(s.vfs, s.step(step).vfs),
{
    match step {
        Step::Message(message) => {
            match message {
                Message::Notification(n) => {
                    if n.method@ != "exit"@ {
                        match notification_kind_of(n.method@) {
                            NotificationKind::DidOpen => {
                                match open_params(n.params) {
                                    Some((opened, text)) => {
                                        let a = s.opened_anew(opened);
                                        lemma_opened_anew_wf(s, opened);
                                        match a.vfs.set_uri(opened, encode_utf8(text)) {
                                            Ok((_, vfs)) => {
                                                lemma_set_uri_wf(a.vfs, opened, encode_utf8(text));
                                                lemma_apply_vfs_change_frame(
                                                    ServerView { vfs, ..a },
                                                );
                                            },
                                            Err(_) => {},
                                        }
                                    },
                                    None => {},
                                }
                            },
                            NotificationKind::DidChange => {
                                match change_params(n.params) {
                                    Some((changed, edits)) => {
                                        match s.vfs.file_of_uri(changed) {
                                            Ok(file) => {
                                                lemma_edits_applied_wf(s.vfs, file, edits);
                                                lemma_edits_keep_files(s.vfs, file, edits);
                                                lemma_apply_vfs_change_frame(
                                                    ServerView {
                                                        vfs: edits_applied(s.vfs, file, edits),
                                                        ..s
                                                    },
                                                );
                                            },
                                            Err(_) => {},
                                        }
                                    },
                                    None => {},
                                }
                            },
                            _ => {},
                        }
                    }
                },
                _ => {},
            }
        },
        Step::Event(event) => {
            match event {
                EventView::LoadFlake(outcome) => {
                    lemma_flake_keeps_files(s, outcome);
                },
                _ => {},
            }
        },
        Step::Configured(settings, then_load_flake) => {
            lemma_configured(s, settings, then_load_flake);
            match settings {
                Some(st) => {
                    let merged = ServerView { config: s.config.updated(st), ..s };
                    let told = if st.errors().len() > 0 {
                        merged.show_message(
                            MessageLevel::Error,
                            settings_error_message(st.errors()),
                        )
                    } else {
                        merged
                    };
                    let version = (s.version + 1) as u64;
                    (ServerView { version, ..told }).lemma_diagnose_opened_keeps(
                        told.opened.len() as int,
                        version,
                    );
                },
                None => {},
            }
        },
        Step::FlakeProbed(probe) => {
            let flake_path = path_joined(
                s.config.root_path,
                flake_file_name(),
            );
            let lock_path = path_joined(
                s.config.root_path,
                flake_lock_name(),
            );
            lemma_flake_loaded_wf(s.vfs, flake_path, lock_path, probe);
            let loaded = flake_loaded(s.vfs, flake_path, lock_path, probe);
            lemma_flake_keeps_files(ServerView { vfs: loaded.1, ..s }, loaded.0);
        },
    }
}

/// Taking in the outcome of loading the flake keeps the files that there are.
proof fn lemma_flake_keeps_files(s: ServerView, outcome: Result<LoadFlakeView, Seq<char>>)
    requires
        s.wf(),
    ensures
        files_kept(s.vfs, s.on_flake(outcome).vfs),
{
    match outcome {
        Err(_) => {},
        Ok(LoadFlakeView::IsFlake { flake_info, missing_inputs }) => {
            let warned = if missing_inputs {
                s.show_message(MessageLevel::Warning, missing_inputs_warning())
            } else {
                s
            };
            warned.vfs.lemma_with_flake_info_wf(Some(flake_info));
            lemma_apply_vfs_change_frame(
                ServerView { vfs: warned.vfs.with_flake_info(Some(flake_info)), ..warned },
            );
        },
        Ok(LoadFlakeView::NotFlake) => {
            s.vfs.lemma_with_flake_info_wf(None);
            lemma_apply_vfs_change_frame(ServerView { vfs: s.vfs.with_flake_info(None), ..s });
        },
    }
}

/// A file keeps its identifier, its path and its URI for good: whatever
/// the server takes in, every file that it held before it holds after.
pub proof fn law_files_are_stable(s: ServerView, steps: Seq<Step>)
    requires
        s.wf(),
    ensures
        files_kept(s.vfs, s.run(steps).vfs),
    decreases steps.len(),
{
    if steps.len() > 0 {
        law_files_are_stable(s, steps.drop_last());
        law_server_stays_valid(s, steps.drop_last());
        lemma_step_keeps_files(s.run(steps.drop_last()), steps.last());
    }
}

/// Every open document has a file.
pub open spec fn documents_held(s: ServerView) -> bool {
    forall|i: int|
        0 <= i < s.opened.len() ==> s.vfs.file_of_uri((#[trigger] s.opened[i]).uri) is Ok
}

/// Every open document has a file: whatever the server takes in leaves
/// it so.
pub proof fn law_open_documents_have_files(s: ServerView, step: Step)
    requires
        s.wf(),
        documents_held(s),
    ensures
        documents_held(s.step(step)),
{
    let t = s.step(step);
    lemma_step_keeps_files(s, step);
    lemma_step(s, step, Seq::empty());
    assert forall|i: int| 0 <= i < t.opened.len() implies t.vfs.file_of_uri(
        (#[trigger] t.opened[i]).uri,
    ) is Ok by {
        let uri = t.opened[i].uri;
        if s.is_open(uri) {
            let j = s.slot(uri);
            assert(s.vfs.file_of_uri(s.opened[j].uri) is Ok);
            lemma_known_paths_are_kept(s.vfs, t.vfs, uri_file_path(uri)->0);
        } else {
            // Only the opening of the document makes it open.
            lemma_only_opening_opens(s, step, uri);
        }
    }
}

/// Every open document has a file, whatever the server is sent.
pub proof fn law_open_documents_always_have_files(s: ServerView, steps: Seq<Step>)
    requires
        s.wf(),
        documents_held(s),
    ensures
        documents_held(s.run(steps)),
    decreases steps.len(),
{
    if steps.len() > 0 {
        law_open_documents_always_have_files(s, steps.drop_last());
        law_server_stays_valid(s, steps.drop_last());
        law_open_documents_have_files(s.run(steps.drop_last()), steps.last());
    }
}

/// A document that was not open is open after an input only if the input
/// opened it, and then its file is held.
proof fn lemma_only_opening_opens(s: ServerView, step: Step, uri: Seq<char>)
    requires
        s.wf(),
        !s.is_open(uri),
        s.step(step).is_open(uri),
    ensures
        s.step(step).vfs.file_of_uri(uri) is Ok,
{
    let t = s.step(step);
    let i = t.slot(uri);
    match step {
        Step::Message(message) => {
            match message {
                Message::Notification(n) => {
                    if n.method@ != "exit"@ {
                        match notification_kind_of(n.method@) {
                            NotificationKind::DidOpen => {
                                match open_params(n.params) {
                                    Some((opened, text)) => {
                                        let a = s.opened_anew(opened);
                                        lemma_opened_anew_wf(s, opened);
                                        match s.vfs.set_uri(opened, encode_utf8(text)) {
                                            Ok((file, vfs)) => {
                                                lemma_set_uri_wf(s.vfs, opened, encode_utf8(text));
                                                lemma_apply_vfs_change_frame(
                                                    ServerView { vfs, ..a },
                                                );
                                                assert(t.opened == a.opened);
                                                if uri != opened {
                                                    if s.is_open(opened) {
                                                        assert(a.opened[i].uri == s.opened[i].uri);
                                                    } else if i < s.opened.len() {
                                                        assert(a.opened[i] == s.opened[i]);
                                                    }
                                                } else {
                                                    let path = uri_file_path(uri)->0;
                                                    assert(vfs.files[file.0 as int].path == path);
                                                    assert(t.vfs.files == vfs.files);
                                                }
                                            },
                                            Err(_) => {},
                                        }
                                    },
                                    None => {},
                                }
                            },
                            NotificationKind::DidClose => {
                                match close_params(n.params) {
                                    Some(closed) => {
                                        lemma_did_close(s, closed, uri);
                                    },
                                    None => {},
                                }
                            },
                            NotificationKind::DidChange => {
                                match change_params(n.params) {
                                    Some((changed, edits)) => {
                                        match s.vfs.file_of_uri(changed) {
                                            Ok(file) => {
                                                lemma_edits_applied_wf(s.vfs, file, edits);
                                                lemma_apply_vfs_change_frame(
                                                    ServerView {
                                                        vfs: edits_applied(s.vfs, file, edits),
                                                        ..s
                                                    },
                                                );
                                            },
                                            Err(_) => {},
                                        }
                                    },
                                    None => {},
                                }
                            },
                            _ => {},
                        }
                    }
                },
                _ => {},
            }
        },
        Step::Event(event) => {
            match event {
                EventView::Diagnostics { uri: about, version, diagnostics } => {
                    lemma_diagnostics(s, about, version, diagnostics, uri);
                },
                EventView::LoadFlake(outcome) => {
                    lemma_flake(s, outcome);
                },
                _ => {},
            }
        },
        Step::Configured(settings, then_load_flake) => {
            lemma_configured(s, settings, then_load_flake);
        },
        Step::FlakeProbed(probe) => {
            let flake_path = path_joined(
                s.config.root_path,
                flake_file_name(),
            );
            let lock_path = path_joined(
                s.config.root_path,
                flake_lock_name(),
            );
            lemma_flake_loaded_wf(s.vfs, flake_path, lock_path, probe);
            let loaded = flake_loaded(s.vfs, flake_path, lock_path, probe);
            lemma_flake(ServerView { vfs: loaded.1, ..s }, loaded.0);
        },
    }
}

/// What waits for a response of the client is handed out once: after the
/// response nothing waits under its identifier, and a second response
/// finds nothing.
pub proof fn law_answer_is_taken_once(s: ServerView, id: RequestId)
    ensures
        !s.on_client_response(id).outgoing.contains_key(id),
        s.on_client_response(id).on_client_response(id) == s.on_client_response(id),
{
    assert(s.outgoing.remove(id).remove(id) =~= s.outgoing.remove(id));
}

} // verus!
