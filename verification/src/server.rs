//! The state of the server and the decisions of its event loop.

use crate::config::{texts, Config, ConfigView, Settings};
use crate::decode::{
    cancel_params, change_params, close_params, configuration_params_json, decode_cancel,
    decode_change, decode_close, decode_open, decode_unit, decode_values,
    default_json, encode_configuration_params, encode_unit, json_is_null, null_value,
    open_params, question_view, unit_refusal, value_is_null, value_list,
};
use crate::event::{
    effects_view, Effect, EffectView, Event, EventView, LoadFlakeResult, LoadFlakeView, MessageLevel,
};
use crate::flake::{
    flake_file_name, flake_loaded, flake_lock_name, join_path, load_flake_result, path_joined,
    FlakeProbe,
};
use crate::protocol::{
    cancellation, code_number, error_reply, method_not_found, ok_reply, request_view,
    result_to_response, shutdown_rejection, HandlerError, RequestView, ResponseView,
};
use crate::queue::{
    incoming_complete, incoming_ids, incoming_register, new_queue, number_id, outgoing_complete,
    outgoing_next, outgoing_pending, outgoing_register, Pending,
};
use crate::route::{
    is_exit, notification_kind, notification_kind_of, route_of, route_request, NotificationKind,
    Route,
};
use crate::vfs::{
    edited, span_in, ChangeSet, ChangeSetView, FileId, Vfs, VfsError, VfsView,
};
use lsp_server::{
    ErrorCode, Message, Notification, ReqQueue, Request, RequestId, Response, ResponseError,
};
use lsp_types::{
    ConfigurationItem, ConfigurationParams, Diagnostic, TextDocumentContentChangeEvent,
};
use serde_json::Value;
use vstd::prelude::*;
use vstd::string::*;
use vstd::utf8::encode_utf8;

verus! {

/// What a handler sees: the files and the configuration as they were when
/// the work was handed out.
#[derive(Debug)]
pub struct StateSnapshot {
    vfs: Vfs,
    config: Config,
}

pub struct SnapshotView {
    pub vfs: VfsView,
    pub config: ConfigView,
}

impl View for StateSnapshot {
    type V = SnapshotView;

    closed spec fn view(&self) -> SnapshotView {
        SnapshotView { vfs: self.vfs@, config: self.config@ }
    }
}

impl StateSnapshot {
    /// The files of the snapshot are valid.
    pub closed spec fn wf(&self) -> bool {
        self.vfs.wf()
    }

    /// Whether the document gets diagnostics: not where the configuration
    /// excludes it.
    pub fn wants_diagnostics(&self, uri: &String) -> (r: bool)
        ensures
            r == !self@.config.excludes(uri@),
    {
        !self.config.excludes(uri)
    }

    /// The files as they were when the snapshot was taken.
    pub fn vfs(&self) -> (vfs: &Vfs)
        ensures
            vfs@ == self@.vfs,
            self.wf() ==> vfs.wf(),
    {
        &self.vfs
    }

    /// The configuration as it was when the snapshot was taken.
    pub fn config(&self) -> (config: &Config)
        ensures
            config@ == self@.config,
    {
        &self.config
    }
}

/// What the server remembers of a document that the client has opened.
#[derive(Debug)]
pub struct OpenedFile {
    uri: String,
    diagnostics_version: u64,
    diagnostics: Vec<Diagnostic>,
}

pub struct OpenedView {
    pub uri: Seq<char>,
    /// The version of the diagnostics that were published last.
    pub version: u64,
    /// The diagnostics that were published last.
    pub diagnostics: Seq<Diagnostic>,
}

impl View for OpenedFile {
    type V = OpenedView;

    closed spec fn view(&self) -> OpenedView {
        OpenedView { uri: self.uri@, version: self.diagnostics_version, diagnostics: self.diagnostics@ }
    }
}

/// The state of the server as contracts see it. The count of the requests
/// that went to the client is left out: it is `next_request`.
pub struct ServerView {
    pub vfs: VfsView,
    /// The documents that the client has opened, in the order of their opening.
    pub opened: Seq<OpenedView>,
    pub config: ConfigView,
    pub is_shutdown: bool,
    /// The version that was given out last.
    pub version: u64,
    /// The requests of the client that a worker is answering.
    pub incoming: Set<RequestId>,
    /// The requests to the client that wait for a response.
    pub outgoing: Map<RequestId, Pending>,
    /// The number of the next request to the client.
    pub next_request: int,
    /// What the event loop has asked for and nobody has taken yet.
    pub outbox: Seq<EffectView>,
}

impl ServerView {
    /// The files are valid, no document is open twice and the numbering of
    /// requests is in range.
    pub open spec fn wf(self) -> bool {
        &&& self.vfs.wf()
        &&& forall|i: int, j: int|
            0 <= i < j < self.opened.len() ==> (#[trigger] self.opened[i]).uri != (
            #[trigger] self.opened[j]).uri
        &&& 0 <= self.next_request <= i32::MAX
    }

    /// Whether the client has the document open.
    pub open spec fn is_open(self, uri: Seq<char>) -> bool {
        exists|i: int| 0 <= i < self.opened.len() && (#[trigger] self.opened[i]).uri == uri
    }

    /// Where an open document stands among the opened ones.
    pub open spec fn slot(self, uri: Seq<char>) -> int
        recommends
            self.is_open(uri),
    {
        choose|i: int| 0 <= i < self.opened.len() && (#[trigger] self.opened[i]).uri == uri
    }

    /// The version of the diagnostics that were published last for an open document.
    pub open spec fn diagnostics_version(self, uri: Seq<char>) -> u64
        recommends
            self.is_open(uri),
    {
        self.opened[self.slot(uri)].version
    }

    /// What a snapshot taken now holds.
    pub open spec fn snapshot(self) -> SnapshotView {
        SnapshotView { vfs: self.vfs, config: self.config }
    }

    /// The state after one more effect was asked for.
    pub open spec fn emit(self, effect: EffectView) -> ServerView {
        ServerView { outbox: self.outbox.push(effect), ..self }
    }

    /// The state after the user was shown a message.
    pub open spec fn show_message(self, level: MessageLevel, message: Seq<char>) -> ServerView {
        self.emit(EffectView::ShowMessage { level, message })
    }

    /// The state after the diagnostics of a document were asked for.
    pub open spec fn update_diagnostics(self, uri: Seq<char>, version: u64) -> ServerView {
        self.emit(EffectView::Diagnose { uri, version, snapshot: self.snapshot() })
    }

    /// The state after one changed file was looked at: an open document
    /// gets its diagnostics computed, or cleared where its content is empty.
    pub open spec fn changed_file(self, file: FileId, text: Seq<u8>, version: u64) -> ServerView {
        let uri = self.vfs.files[file.0 as int].uri;
        if !self.is_open(uri) {
            self
        } else if text.len() > 0 {
            self.update_diagnostics(uri, version)
        } else {
            self.emit(
                EffectView::Raise(
                    EventView::Diagnostics { uri, version, diagnostics: Seq::empty() },
                ),
            )
        }
    }

    /// The state after the changed files were looked at, one after the other.
    pub open spec fn changed_files(
        self,
        changes: Seq<(FileId, Seq<u8>)>,
        version: u64,
    ) -> ServerView
        decreases changes.len(),
    {
        if changes.len() == 0 {
            self
        } else {
            self.changed_files(changes.drop_last(), version).changed_file(
                changes.last().0,
                changes.last().1,
                version,
            )
        }
    }

    /// The state after the pending changes went to the analysis: they are
    /// handed over, a new version is given out, and the diagnostics of the
    /// changed documents are asked for under it.
    pub open spec fn apply_vfs_change(self) -> ServerView
        recommends
            self.version < u64::MAX,
    {
        let version = (self.version + 1) as u64;
        (ServerView { vfs: self.vfs.taken(), version, ..self }).emit(
            EffectView::ApplyChange(self.vfs.change),
        ).changed_files(self.vfs.change.file_changes, version)
    }
}

/// The server: the files, the open documents, the configuration, the
/// requests in flight, and what it has asked the world to do.
pub struct Server {
    vfs: Vfs,
    opened_files: Vec<OpenedFile>,
    config: Config,
    is_shutdown: bool,
    /// Counts up; orders the diagnostics.
    version_counter: u64,
    req_queue: ReqQueue<(), Pending>,
    /// How many requests went to the client.
    requests_sent: u32,
    outbox: Vec<Effect>,
}

/// The views of the opened documents.
pub open spec fn opened_view(opened: Seq<OpenedFile>) -> Seq<OpenedView> {
    Seq::new(opened.len(), |i: int| opened[i]@)
}

impl View for Server {
    type V = ServerView;

    closed spec fn view(&self) -> ServerView {
        ServerView {
            vfs: self.vfs@,
            opened: opened_view(self.opened_files@),
            config: self.config@,
            is_shutdown: self.is_shutdown,
            version: self.version_counter,
            incoming: incoming_ids(self.req_queue.incoming),
            outgoing: outgoing_pending(self.req_queue.outgoing),
            next_request: outgoing_next(self.req_queue.outgoing),
            outbox: effects_view(self.outbox@),
        }
    }
}

impl Server {
    /// The server is valid.
    pub closed spec fn wf(&self) -> bool {
        &&& self.vfs.wf()
        &&& self@.wf()
        &&& self.requests_sent == self@.next_request
    }

    /// What is valid has a valid view.
    pub proof fn lemma_wf_view(&self)
        requires
            self.wf(),
        ensures
            self@.wf(),
    {
    }

    /// A server for the workspace under `root_path`: no files, no open
    /// documents, nothing in flight, nothing asked for.
    pub fn new(root_path: String) -> (server: Server)
        ensures
            server.wf(),
            server@.vfs.files.len() == 0,
            server@.vfs.change == ChangeSetView::empty(),
            server@.vfs.flake_info is None,
            server@.opened.len() == 0,
            server@.config == ConfigView::initial(root_path@),
            !server@.is_shutdown,
            server@.version == 0,
            server@.incoming == Set::<RequestId>::empty(),
            server@.outgoing.dom() == Set::<RequestId>::empty(),
            server@.next_request == 0,
            server@.outbox.len() == 0,
    {
        Server {
            vfs: Vfs::new(),
            opened_files: Vec::new(),
            config: Config::new(root_path),
            is_shutdown: false,
            version_counter: 0,
            req_queue: new_queue(),
            requests_sent: 0,
            outbox: Vec::new(),
        }
    }

    /// Hands out what the server has asked for, in the order of asking, and
    /// forgets it.
    pub fn take_effects(&mut self) -> (effects: Vec<Effect>)
        requires
            old(self).wf(),
        ensures
            final(self).wf(),
            effects_view(effects@) == old(self)@.outbox,
            final(self)@ == (ServerView { outbox: Seq::empty(), ..old(self)@ }),
    {
        let mut effects: Vec<Effect> = Vec::new();
        std::mem::swap(&mut self.outbox, &mut effects);
        assert(effects_view(self.outbox@) =~= Seq::empty());
        effects
    }

    /// Adds an effect to those asked for.
    fn emit(&mut self, effect: Effect)
        requires
            old(self).wf(),
        ensures
            final(self).wf(),
            final(self)@ == old(self)@.emit(effect@),
    {
        self.outbox.push(effect);
        assert(effects_view(self.outbox@) =~= effects_view(old(self).outbox@).push(effect@));
    }

    /// Whether shutdown was requested.
    pub fn is_shutdown(&self) -> (r: bool)
        ensures
            r == self@.is_shutdown,
    {
        self.is_shutdown
    }

    /// The version that was given out last.
    pub fn version(&self) -> (v: u64)
        ensures
            v == self@.version,
    {
        self.version_counter
    }

    /// The files.
    pub fn vfs(&self) -> (vfs: &Vfs)
        ensures
            vfs@ == self@.vfs,
            self.wf() ==> vfs.wf(),
    {
        &self.vfs
    }

    /// The configuration.
    pub fn config(&self) -> (config: &Config)
        ensures
            config@ == self@.config,
    {
        &self.config
    }

    /// Gives out the next version.
    pub fn next_version(&mut self) -> (version: u64)
        requires
            old(self).wf(),
            old(self)@.version < u64::MAX,
        ensures
            final(self).wf(),
            version == old(self)@.version + 1,
            final(self)@ == (ServerView { version, ..old(self)@ }),
    {
        self.version_counter = self.version_counter + 1;
        self.version_counter
    }

    /// Takes a snapshot: the files and the configuration as they are now.
    pub fn snapshot(&self) -> (snapshot: StateSnapshot)
        requires
            self.wf(),
        ensures
            snapshot.wf(),
            snapshot@ == self@.snapshot(),
    {
        StateSnapshot { vfs: self.vfs.duplicate(), config: self.config.duplicate() }
    }

    /// Asks for a message to be shown to the user.
    pub fn show_message(&mut self, level: MessageLevel, message: String)
        requires
            old(self).wf(),
        ensures
            final(self).wf(),
            final(self)@ == old(self)@.show_message(level, message@),
    {
        self.emit(Effect::ShowMessage { level, message });
    }

    /// Asks a worker for the diagnostics of a document, from a snapshot
    /// taken now and under the given version.
    pub fn update_diagnostics(&mut self, uri: String, version: u64)
        requires
            old(self).wf(),
        ensures
            final(self).wf(),
            final(self)@ == old(self)@.update_diagnostics(uri@, version),
    {
        let snapshot = self.snapshot();
        self.emit(Effect::Diagnose { uri, version, snapshot });
    }
}

impl ServerView {
    /// A document is open once at most.
    pub proof fn lemma_one_entry_per_document(self, i: int, j: int)
        requires
            self.wf(),
            0 <= i < self.opened.len(),
            0 <= j < self.opened.len(),
            self.opened[i].uri == self.opened[j].uri,
        ensures
            i == j,
    {
        if i < j {
            assert(self.opened[i].uri != self.opened[j].uri);
        } else if j < i {
            assert(self.opened[j].uri != self.opened[i].uri);
        }
    }

    /// Looking at changed files asks for effects and changes nothing else.
    pub proof fn lemma_changed_files_keeps(self, changes: Seq<(FileId, Seq<u8>)>, version: u64)
        ensures
            self.changed_files(changes, version) == (ServerView {
                outbox: self.changed_files(changes, version).outbox,
                ..self
            }),
            self.outbox.len() <= self.changed_files(changes, version).outbox.len(),
        decreases changes.len(),
    {
        if changes.len() > 0 {
            self.lemma_changed_files_keeps(changes.drop_last(), version);
        }
    }
}

/// Which files a change set writes, and whether it leaves each with content.
fn changed_with_content(change: &ChangeSet) -> (plan: Vec<(FileId, bool)>)
    ensures
        plan.len() == change@.file_changes.len(),
        forall|k: int|
            0 <= k < plan.len() ==> (#[trigger] plan@[k]).0 == change@.file_changes[k].0 && plan@[k].1
                == (change@.file_changes[k].1.len() > 0),
{
    let mut plan: Vec<(FileId, bool)> = Vec::new();
    let mut i: usize = 0;
    while i < change.file_changes.len()
        invariant
            i <= change.file_changes.len(),
            plan.len() == i,
            forall|k: int|
                0 <= k < i ==> (#[trigger] plan@[k]).0 == change@.file_changes[k].0 && plan@[k].1 == (
                change@.file_changes[k].1.len() > 0),
        decreases change.file_changes.len() - i,
    {
        plan.push((change.file_changes[i].file, change.file_changes[i].text.len() > 0));
        i += 1;
    }
    plan
}

impl Server {
    /// Where an open document stands among the opened ones.
    fn find_opened(&self, uri: &String) -> (r: Option<usize>)
        requires
            self.wf(),
        ensures
            r is Some == self@.is_open(uri@),
            r is Some ==> r->0 == self@.slot(uri@) && r->0 < self.opened_files.len(),
    {
        let mut i: usize = 0;
        while i < self.opened_files.len()
            invariant
                self.wf(),
                i <= self.opened_files.len(),
                forall|k: int| 0 <= k < i ==> (#[trigger] self@.opened[k]).uri != uri@,
            decreases self.opened_files.len() - i,
        {
            if self.opened_files[i].uri == *uri {
                proof {
                    assert(self@.opened[i as int].uri == uri@);
                    self@.lemma_one_entry_per_document(self@.slot(uri@), i as int);
                }
                return Some(i);
            }
            i += 1;
        }
        None
    }

    /// Whether the client has the document open.
    pub fn is_open(&self, uri: &String) -> (r: bool)
        requires
            self.wf(),
        ensures
            r == self@.is_open(uri@),
    {
        self.find_opened(uri).is_some()
    }

    /// The version of the diagnostics that were published last for a
    /// document, where the client has it open.
    pub fn diagnostics_version(&self, uri: &String) -> (r: Option<u64>)
        requires
            self.wf(),
        ensures
            r == (if self@.is_open(uri@) {
                Some(self@.diagnostics_version(uri@))
            } else {
                None
            }),
    {
        match self.find_opened(uri) {
            Some(i) => Some(self.opened_files[i].diagnostics_version),
            None => None,
        }
    }

    /// Hands the pending changes of the files to the analysis, gives out a
    /// new version and asks under it for the diagnostics of each changed
    /// document that is open: computed by a worker where the document has
    /// content, cleared at once where it is empty.
    pub fn apply_vfs_change(&mut self)
        requires
            old(self).wf(),
            old(self)@.version < u64::MAX,
        ensures
            final(self).wf(),
            final(self)@ == old(self)@.apply_vfs_change(),
    {
        let changes = self.vfs.take_change();
        let plan = changed_with_content(&changes);
        let ghost list = changes@.file_changes;
        self.emit(Effect::ApplyChange(changes));
        let version = self.next_version();
        let ghost base = self@;
        let mut i: usize = 0;
        while i < plan.len()
            invariant
                self.wf(),
                i <= plan.len(),
                plan.len() == list.len(),
                old(self)@.vfs.wf(),
                list == old(self)@.vfs.change.file_changes,
                base.vfs.files == old(self)@.vfs.files,
                forall|k: int|
                    0 <= k < plan.len() ==> (#[trigger] plan@[k]).0 == list[k].0 && plan@[k].1 == (
                    list[k].1.len() > 0),
                self@ == base.changed_files(list.take(i as int), version),
            decreases plan.len() - i,
        {
            let (file, has_content) = plan[i];
            proof {
                assert(list.take(i + 1).drop_last() =~= list.take(i as int));
                assert(list.take(i + 1).last() == list[i as int]);
                base.lemma_changed_files_keeps(list.take(i as int), version);
                assert(old(self)@.vfs.has_file(list[i as int].0));
            }
            let uri = self.vfs.uri_for_file(file);
            if self.is_open(&uri) {
                if has_content {
                    self.update_diagnostics(uri, version);
                } else {
                    self.emit(
                        Effect::Raise(Event::Diagnostics { uri, version, diagnostics: Vec::new() }),
                    );
                }
            }
            i += 1;
        }
        assert(list.take(list.len() as int) =~= list);
    }
}

/// What the user is told when inputs of the flake are not in the store.
pub open spec fn missing_inputs_warning() -> Seq<char> {
    "Some flake inputs are not available, please run `nix flake archive` to fetch all inputs"@
}

/// Why the session ends.
#[derive(Clone, Copy, Debug, PartialEq, Eq, Structural)]
pub enum ServerError {
    /// The client's process is gone.
    ClientExited,
    /// The channel of the client's messages is closed.
    ChannelClosed,
    /// The channel of the workers' events is closed.
    WorkerPanicked,
    /// The file system refused the text of an opened document.
    Vfs(VfsError),
}

impl ServerError {
    /// What the error says.
    pub open spec fn text(self) -> Seq<char> {
        match self {
            ServerError::ClientExited => "The process initializing this server is exited. Exit now"@,
            ServerError::ChannelClosed => "Channel closed"@,
            ServerError::WorkerPanicked => "Worker panicked"@,
            ServerError::Vfs(e) => e.text(),
        }
    }

    /// What the error says.
    pub fn message(self) -> (text: String)
        ensures
            text@ == self.text(),
    {
        match self {
            ServerError::ClientExited => "The process initializing this server is exited. Exit now".to_owned(),
            ServerError::ChannelClosed => "Channel closed".to_owned(),
            ServerError::WorkerPanicked => "Worker panicked".to_owned(),
            ServerError::Vfs(e) => e.message(),
        }
    }
}

impl ServerView {
    /// The state after a worker's response arrived: it goes to the client
    /// if the request is still in flight, which it then no longer is.
    pub open spec fn on_response(self, response: ResponseView) -> ServerView {
        if self.incoming.contains(response.id) {
            (ServerView { incoming: self.incoming.remove(response.id), ..self }).emit(
                EffectView::Respond(response),
            )
        } else {
            self
        }
    }

    /// Whether diagnostics of this version are news for the document: it is
    /// open, and what was published last for it is older.
    pub open spec fn accepts_diagnostics(self, uri: Seq<char>, version: u64) -> bool {
        self.is_open(uri) && self.diagnostics_version(uri) < version
    }

    /// The state after diagnostics arrived: news are remembered and
    /// published, anything else is dropped.
    pub open spec fn on_diagnostics(
        self,
        uri: Seq<char>,
        version: u64,
        diagnostics: Seq<Diagnostic>,
    ) -> ServerView {
        if self.accepts_diagnostics(uri, version) {
            (ServerView {
                opened: self.opened.update(self.slot(uri), OpenedView { uri, version, diagnostics }),
                ..self
            }).emit(EffectView::PublishDiagnostics { uri, diagnostics })
        } else {
            self
        }
    }

    /// The state after the flake of the workspace was looked at: a failure
    /// is shown to the user; otherwise the flake table is set or cleared,
    /// with a warning where inputs are missing, and the change is applied.
    pub open spec fn on_flake(self, outcome: Result<LoadFlakeView, Seq<char>>) -> ServerView {
        match outcome {
            Err(message) => self.show_message(
                MessageLevel::Error,
                "Failed to load flake workspace: "@ + message,
            ),
            Ok(LoadFlakeView::IsFlake { flake_info, missing_inputs }) => {
                let warned = if missing_inputs {
                    self.show_message(MessageLevel::Warning, missing_inputs_warning())
                } else {
                    self
                };
                (ServerView { vfs: warned.vfs.with_flake_info(Some(flake_info)), ..warned }).apply_vfs_change()
            },
            Ok(LoadFlakeView::NotFlake) => (ServerView {
                vfs: self.vfs.with_flake_info(None),
                ..self
            }).apply_vfs_change(),
        }
    }

    /// The state after an event.
    pub open spec fn on_event(self, event: EventView) -> ServerView {
        match event {
            EventView::Response(response) => self.on_response(response),
            EventView::Diagnostics { uri, version, diagnostics } => self.on_diagnostics(
                uri,
                version,
                diagnostics,
            ),
            EventView::ClientExited => self,
            EventView::LoadFlake(outcome) => self.on_flake(outcome),
        }
    }
}

impl Server {
    /// Takes in what a worker, or the watcher of the client's process, has
    /// to say. Only the loss of the client is an error: it ends the session.
    pub fn dispatch_event(&mut self, event: Event) -> (r: Result<(), ServerError>)
        requires
            old(self).wf(),
            old(self)@.event_gives_version(event@) ==> old(self)@.version < u64::MAX,
        ensures
            final(self).wf(),
            final(self)@ == old(self)@.on_event(event@),
            r == (if event is ClientExited {
                Err::<(), ServerError>(ServerError::ClientExited)
            } else {
                Ok(())
            }),
    {
        match event {
            Event::Response(response) => {
                if incoming_complete(&mut self.req_queue.incoming, &response.id) {
                    self.emit(Effect::Respond(response));
                } else {
                    assert(self@.incoming =~= old(self)@.incoming);
                }
            },
            Event::Diagnostics { uri, version, diagnostics } => {
                match self.find_opened(&uri) {
                    Some(i) => {
                        if self.opened_files[i].diagnostics_version < version {
                            let slot = &mut self.opened_files[i];
                            slot.diagnostics_version = version;
                            slot.diagnostics = diagnostics.clone();
                            proof {
                                let want = old(self)@.opened.update(
                                    i as int,
                                    OpenedView { uri: uri@, version, diagnostics: diagnostics@ },
                                );
                                assert(self.opened_files@[i as int].diagnostics@ =~= diagnostics@);
                                assert(self@.opened =~= want);
                                assert forall|a: int, b: int|
                                    0 <= a < b < self@.opened.len() implies (
                                #[trigger] self@.opened[a]).uri != (#[trigger] self@.opened[b]).uri by {
                                    assert(self@.opened[a].uri == old(self)@.opened[a].uri);
                                    assert(self@.opened[b].uri == old(self)@.opened[b].uri);
                                }
                            }
                            self.emit(Effect::PublishDiagnostics { uri, diagnostics });
                        }
                    },
                    None => {},
                }
            },
            Event::ClientExited => {
                return Err(ServerError::ClientExited);
            },
            Event::LoadFlake(outcome) => {
                match outcome {
                    Err(message) => {
                        let mut text = "Failed to load flake workspace: ".to_owned();
                        text.append(message.as_str());
                        self.show_message(MessageLevel::Error, text);
                    },
                    Ok(LoadFlakeResult::IsFlake { flake_info, missing_inputs }) => {
                        if missing_inputs {
                            self.show_message(
                                MessageLevel::Warning,
                                "Some flake inputs are not available, please run `nix flake archive` to fetch all inputs".to_owned(),
                            );
                        }
                        self.vfs.set_flake_info(Some(flake_info));
                        self.apply_vfs_change();
                    },
                    Ok(LoadFlakeResult::NotFlake) => {
                        self.vfs.set_flake_info(None);
                        self.apply_vfs_change();
                    },
                }
            },
        }
        Ok(())
    }
}

/// The section of the editor's configuration that belongs to the server.
pub open spec fn config_section() -> Seq<char> {
    "nil"@
}

impl ServerView {
    /// The state after a request went to the client: it waits under the
    /// next number. Nothing happens once the numbers have run out.
    pub open spec fn send_request(
        self,
        method: Seq<char>,
        params: Value,
        pending: Pending,
    ) -> ServerView {
        if self.next_request < i32::MAX {
            let id = number_id(self.next_request as i32);
            (ServerView {
                outgoing: self.outgoing.insert(id, pending),
                next_request: self.next_request + 1,
                ..self
            }).emit(EffectView::Request(RequestView { id, method, params }))
        } else {
            self
        }
    }

    /// The state after the client was asked for the configuration.
    pub open spec fn load_config(self, then_load_flake: bool) -> ServerView {
        self.send_request(
            "workspace/configuration"@,
            configuration_params_json(seq![(None, Some(config_section()))]),
            Pending::Configuration { then_load_flake },
        )
    }

    /// The state after a request of the client came in. After shutdown it
    /// is refused. The request to shut down is answered at once; one that a
    /// handler answers is in flight from now on and goes to a worker with a
    /// snapshot; any other is answered as unknown.
    pub open spec fn on_request(self, request: RequestView) -> ServerView {
        if self.is_shutdown {
            self.emit(
                EffectView::Respond(
                    error_reply(
                        request.id,
                        code_number(ErrorCode::InvalidRequest),
                        "Shutdown already requested."@,
                    ),
                ),
            )
        } else {
            match route_of(request.method) {
                Route::Shutdown => if value_is_null(request.params) {
                    (ServerView { is_shutdown: true, ..self }).emit(
                        EffectView::Respond(ok_reply(request.id, null_value())),
                    )
                } else {
                    self.emit(
                        EffectView::Respond(
                            error_reply(
                                request.id,
                                code_number(ErrorCode::InvalidParams),
                                unit_refusal(request.params),
                            ),
                        ),
                    )
                },
                Route::Snapshot(handler) => (ServerView {
                    incoming: self.incoming.insert(request.id),
                    ..self
                }).emit(EffectView::RunHandler { handler, request, snapshot: self.snapshot() }),
                Route::Unknown => self.emit(
                    EffectView::Respond(
                        error_reply(
                            request.id,
                            code_number(ErrorCode::MethodNotFound),
                            Seq::<char>::empty(),
                        ),
                    ),
                ),
            }
        }
    }
}

impl Server {
    /// Sends the client a request and remembers what it is for. Says
    /// whether it was sent: not once the numbers have run out.
    pub fn send_request(&mut self, method: String, params: Value, pending: Pending) -> (sent: bool)
        requires
            old(self).wf(),
        ensures
            final(self).wf(),
            final(self)@ == old(self)@.send_request(method@, params, pending),
            sent == (old(self)@.next_request < i32::MAX),
    {
        if self.requests_sent >= 0x7fff_ffff {
            return false;
        }
        let request = outgoing_register(&mut self.req_queue.outgoing, method, params, pending);
        self.requests_sent = self.requests_sent + 1;
        self.emit(Effect::Request(request));
        true
    }

    /// Asks the client for the configuration; the flake is looked at when
    /// the answer is in, if so wished.
    pub fn load_config(&mut self, then_load_flake: bool)
        requires
            old(self).wf(),
        ensures
            final(self).wf(),
            final(self)@ == old(self)@.load_config(then_load_flake),
    {
        let item = ConfigurationItem { scope_uri: None, section: Some("nil".to_owned()) };
        let mut items: Vec<ConfigurationItem> = Vec::new();
        items.push(item);
        let question = ConfigurationParams { items };
        assert(question_view(question) =~= seq![(None, Some(config_section()))]);
        let params = encode_configuration_params(question);
        self.send_request(
            "workspace/configuration".to_owned(),
            params,
            Pending::Configuration { then_load_flake },
        );
    }

    /// Takes in a request of the client.
    pub fn dispatch_request(&mut self, request: Request)
        requires
            old(self).wf(),
        ensures
            final(self).wf(),
            final(self)@ == old(self)@.on_request(request_view(request)),
    {
        if self.is_shutdown {
            let response = shutdown_rejection(request.id);
            self.emit(Effect::Respond(response));
            return ;
        }
        match route_request(&request.method) {
            Route::Shutdown => {
                let outcome = if json_is_null(&request.params) {
                    self.is_shutdown = true;
                    Ok(encode_unit())
                } else {
                    match decode_unit(request.params) {
                        Some(text) => Err(HandlerError::InvalidParams(text)),
                        None => Err(HandlerError::InvalidParams(String::new())),
                    }
                };
                let response = result_to_response(request.id, outcome);
                self.emit(Effect::Respond(response));
            },
            Route::Snapshot(handler) => {
                let snapshot = self.snapshot();
                incoming_register(&mut self.req_queue.incoming, request.id.clone());
                self.emit(Effect::RunHandler { handler, request, snapshot });
            },
            Route::Unknown => {
                let response = method_not_found(request.id);
                self.emit(Effect::Respond(response));
            },
        }
    }
}

/// What a document is remembered as when it is opened: nothing published yet.
pub open spec fn fresh_document(uri: Seq<char>) -> OpenedView {
    OpenedView { uri, version: 0, diagnostics: Seq::empty() }
}

/// The files after one edit of a document: the bytes of the edit's text
/// replace the span of its range, or the whole content without a range. An
/// edit whose range does not lie in the content, or that the file system
/// refuses, changes nothing.
pub open spec fn edit_applied(
    vfs: VfsView,
    file: FileId,
    edit: TextDocumentContentChangeEvent,
) -> VfsView {
    let content = vfs.files[file.0 as int].content;
    let span = match edit.range {
        Some(range) => span_in(content, range),
        None => None,
    };
    if edit.range is Some && span is None {
        vfs
    } else {
        match edited(content, span, encode_utf8(edit.text@)) {
            Ok(new) => vfs.with_content(file, new),
            Err(_) => vfs,
        }
    }
}

/// The files after the edits of a document, one after the other.
pub open spec fn edits_applied(
    vfs: VfsView,
    file: FileId,
    edits: Seq<TextDocumentContentChangeEvent>,
) -> VfsView
    decreases edits.len(),
{
    if edits.len() == 0 {
        vfs
    } else {
        edit_applied(edits_applied(vfs, file, edits.drop_last()), file, edits.last())
    }
}

/// How many of the edits changed nothing because they did not fit the content.
pub open spec fn edits_skipped(
    vfs: VfsView,
    file: FileId,
    edits: Seq<TextDocumentContentChangeEvent>,
) -> nat
    decreases edits.len(),
{
    if edits.len() == 0 {
        0
    } else {
        let before = edits_applied(vfs, file, edits.drop_last());
        let rest = edits_skipped(vfs, file, edits.drop_last());
        if edit_applied(before, file, edits.last()) == before {
            rest + 1
        } else {
            rest
        }
    }
}

/// Edits keep a valid file system valid, with the same files.
pub proof fn lemma_edits_applied_wf(
    vfs: VfsView,
    file: FileId,
    edits: Seq<TextDocumentContentChangeEvent>,
)
    requires
        vfs.wf(),
        vfs.has_file(file),
    ensures
        edits_applied(vfs, file, edits).wf(),
        edits_applied(vfs, file, edits).files.len() == vfs.files.len(),
    decreases edits.len(),
{
    if edits.len() > 0 {
        lemma_edits_applied_wf(vfs, file, edits.drop_last());
        let before = edits_applied(vfs, file, edits.drop_last());
        let edit = edits.last();
        let content = before.files[file.0 as int].content;
        let span = match edit.range {
            Some(range) => span_in(content, range),
            None => None,
        };
        match edited(content, span, encode_utf8(edit.text@)) {
            Ok(new) => {
                before.lemma_with_content_wf(file, new);
            },
            Err(_) => {},
        }
    }
}

impl ServerView {
    /// The state after the client cancelled a request: one in flight is
    /// answered as cancelled and is in flight no longer.
    pub open spec fn on_cancel(self, id: RequestId) -> ServerView {
        if self.incoming.contains(id) {
            (ServerView { incoming: self.incoming.remove(id), ..self }).emit(
                EffectView::Respond(
                    error_reply(id, code_number(ErrorCode::ServerCancelled), "Cancelled"@),
                ),
            )
        } else {
            self
        }
    }

    /// The state after a document was noted as opened, with nothing
    /// published for it yet.
    pub open spec fn opened_anew(self, uri: Seq<char>) -> ServerView {
        ServerView {
            opened: if self.is_open(uri) {
                self.opened.update(self.slot(uri), fresh_document(uri))
            } else {
                self.opened.push(fresh_document(uri))
            },
            ..self
        }
    }

    /// The state after `text` was written to the file of `uri` and the
    /// change applied; unchanged where the file system refuses.
    pub open spec fn set_vfs_file_content(self, uri: Seq<char>, text: Seq<u8>) -> ServerView {
        match self.vfs.set_uri(uri, text) {
            Ok((_, vfs)) => (ServerView { vfs, ..self }).apply_vfs_change(),
            Err(_) => self,
        }
    }

    /// The state after the client opened a document.
    pub open spec fn on_did_open(self, uri: Seq<char>, text: Seq<char>) -> ServerView {
        match self.vfs.set_uri(uri, encode_utf8(text)) {
            Ok((_, vfs)) => (ServerView { vfs, ..self.opened_anew(uri) }).apply_vfs_change(),
            Err(_) => self,
        }
    }

    /// The state after the client closed a document: it is open no longer;
    /// its content stays.
    pub open spec fn on_did_close(self, uri: Seq<char>) -> ServerView {
        if self.is_open(uri) {
            ServerView { opened: self.opened.remove(self.slot(uri)), ..self }
        } else {
            self
        }
    }

    /// The state after the client edited a document. Edits of a document
    /// that the file system does not hold are passed over.
    pub open spec fn on_did_change(
        self,
        uri: Seq<char>,
        edits: Seq<TextDocumentContentChangeEvent>,
    ) -> ServerView {
        match self.vfs.file_of_uri(uri) {
            Ok(file) => (ServerView {
                vfs: edits_applied(self.vfs, file, edits),
                ..self
            }).apply_vfs_change(),
            Err(_) => self,
        }
    }
}

impl Server {
    /// Takes in the cancellation of a request.
    pub fn on_cancel(&mut self, id: RequestId)
        requires
            old(self).wf(),
        ensures
            final(self).wf(),
            final(self)@ == old(self)@.on_cancel(id),
    {
        if incoming_complete(&mut self.req_queue.incoming, &id) {
            let response = cancellation(id);
            self.emit(Effect::Respond(response));
        } else {
            assert(self@.incoming =~= old(self)@.incoming);
        }
    }

    /// Writes `text` to the file that `uri` names and applies the change.
    pub fn set_vfs_file_content(&mut self, uri: &String, text: Vec<u8>) -> (r: Result<(), VfsError>)
        requires
            old(self).wf(),
            old(self)@.vfs.set_uri(uri@, text@) is Ok ==> old(self)@.version < u64::MAX,
        ensures
            final(self).wf(),
            final(self)@ == old(self)@.set_vfs_file_content(uri@, text@),
            match old(self)@.vfs.set_uri(uri@, text@) {
                Ok(_) => r is Ok,
                Err(e) => r == Err::<(), VfsError>(e),
            },
    {
        match self.vfs.set_uri_content(uri.as_str(), text) {
            Ok(_) => {
                self.apply_vfs_change();
                Ok(())
            },
            Err(e) => Err(e),
        }
    }

    /// Notes a document as opened, with nothing published for it yet.
    fn note_opened(&mut self, uri: String)
        requires
            old(self).wf(),
        ensures
            final(self).wf(),
            final(self)@ == old(self)@.opened_anew(uri@),
    {
        match self.find_opened(&uri) {
            Some(i) => {
                let slot = &mut self.opened_files[i];
                slot.diagnostics_version = 0;
                slot.diagnostics = Vec::new();
                proof {
                    assert(self@.opened =~= old(self)@.opened.update(i as int, fresh_document(uri@)));
                    assert forall|a: int, b: int| 0 <= a < b < self@.opened.len() implies (
                    #[trigger] self@.opened[a]).uri != (#[trigger] self@.opened[b]).uri by {
                        assert(self@.opened[a].uri == old(self)@.opened[a].uri);
                        assert(self@.opened[b].uri == old(self)@.opened[b].uri);
                    }
                }
            },
            None => {
                self.opened_files.push(
                    OpenedFile { uri, diagnostics_version: 0, diagnostics: Vec::new() },
                );
                proof {
                    assert(self@.opened =~= old(self)@.opened.push(fresh_document(uri@)));
                    assert forall|a: int, b: int| 0 <= a < b < self@.opened.len() implies (
                    #[trigger] self@.opened[a]).uri != (#[trigger] self@.opened[b]).uri by {
                        assert(self@.opened[a] == old(self)@.opened[a]);
                        if b < old(self)@.opened.len() {
                            assert(self@.opened[b] == old(self)@.opened[b]);
                        }
                    }
                }
            },
        }
    }

    /// Takes in that the client opened a document: its text is written to
    /// the file of its URI, the document counts as open from now on with
    /// nothing published for it, and the change is applied. Where the file
    /// system refuses the text, nothing changes and the document is not
    /// open.
    pub fn on_did_open(&mut self, uri: String, text: String) -> (r: Result<(), VfsError>)
        requires
            old(self).wf(),
            old(self)@.vfs.set_uri(uri@, encode_utf8(text@)) is Ok ==> old(self)@.version < u64::MAX,
        ensures
            final(self).wf(),
            final(self)@ == old(self)@.on_did_open(uri@, text@),
            match old(self)@.vfs.set_uri(uri@, encode_utf8(text@)) {
                Ok(_) => r is Ok,
                Err(e) => r == Err::<(), VfsError>(e),
            },
    {
        let bytes = text.as_str().as_bytes_vec();
        match self.vfs.set_uri_content(uri.as_str(), bytes) {
            Err(e) => Err(e),
            Ok(_) => {
                proof {
                    assert(self@.opened == old(self)@.opened);
                    assert forall|a: int, b: int| 0 <= a < b < self@.opened.len() implies (
                    #[trigger] self@.opened[a]).uri != (#[trigger] self@.opened[b]).uri by {
                        assert(old(self)@.opened[a].uri != old(self)@.opened[b].uri);
                    }
                }
                self.note_opened(uri);
                self.apply_vfs_change();
                Ok(())
            },
        }
    }

    /// Takes in that the client closed a document.
    pub fn on_did_close(&mut self, uri: &String)
        requires
            old(self).wf(),
        ensures
            final(self).wf(),
            final(self)@ == old(self)@.on_did_close(uri@),
    {
        match self.find_opened(uri) {
            Some(i) => {
                self.opened_files.remove(i);
                proof {
                    assert(self@.opened =~= old(self)@.opened.remove(i as int));
                    assert forall|a: int, b: int| 0 <= a < b < self@.opened.len() implies (
                    #[trigger] self@.opened[a]).uri != (#[trigger] self@.opened[b]).uri by {
                        let a0 = if a < i { a } else { a + 1 };
                        let b0 = if b < i { b } else { b + 1 };
                        assert(self@.opened[a] == old(self)@.opened[a0]);
                        assert(self@.opened[b] == old(self)@.opened[b0]);
                    }
                }
            },
            None => {},
        }
    }

    /// Takes in the edits of a document, in their order, and applies the
    /// change. Says how many edits were passed over because they did not
    /// fit the content. A document that the file system does not hold is
    /// left alone altogether. The columns of the ranges count bytes: the
    /// server has to agree with the client on the position encoding `utf-8`.
    pub fn on_did_change(
        &mut self,
        uri: &String,
        edits: Vec<TextDocumentContentChangeEvent>,
    ) -> (skipped: usize)
        requires
            old(self).wf(),
            old(self)@.vfs.file_of_uri(uri@) is Ok ==> old(self)@.version < u64::MAX,
        ensures
            final(self).wf(),
            final(self)@ == old(self)@.on_did_change(uri@, edits@),
            match old(self)@.vfs.file_of_uri(uri@) {
                Ok(file) => skipped == edits_skipped(old(self)@.vfs, file, edits@),
                Err(_) => skipped == 0,
            },
    {
        let file = match self.vfs.file_for_uri(uri.as_str()) {
            Ok(file) => file,
            Err(_) => {
                return 0;
            },
        };
        let mut skipped: usize = 0;
        let mut i: usize = 0;
        while i < edits.len()
            invariant
                self.wf(),
                i <= edits.len(),
                skipped <= i,
                old(self)@.vfs.wf(),
                old(self)@.vfs.has_file(file),
                self@ == (ServerView {
                    vfs: edits_applied(old(self)@.vfs, file, edits@.take(i as int)),
                    ..old(self)@
                }),
                skipped == edits_skipped(old(self)@.vfs, file, edits@.take(i as int)),
            decreases edits.len() - i,
        {
            proof {
                assert(edits@.take(i + 1).drop_last() =~= edits@.take(i as int));
                assert(edits@.take(i + 1).last() == edits@[i as int]);
                lemma_edits_applied_wf(old(self)@.vfs, file, edits@.take(i as int));
            }
            let ghost start = self@;
            let ghost before = self@.vfs;
            let edit = &edits[i];
            let text = edit.text.as_str().as_bytes_vec();
            let span = match edit.range {
                Some(range) => self.vfs.span_at(file, range),
                None => None,
            };
            let mut applied = false;
            if !(edit.range.is_some() && span.is_none()) {
                applied = self.vfs.change_file_content(file, span, &text).is_ok();
            }
            proof {
                assert(self@.opened == start.opened);
                assert forall|a: int, b: int| 0 <= a < b < self@.opened.len() implies (
                #[trigger] self@.opened[a]).uri != (#[trigger] self@.opened[b]).uri by {
                    assert(start.opened[a].uri != start.opened[b].uri);
                }
                assert(self@.vfs == edit_applied(before, file, edits@[i as int]));
                if applied {
                    // A written file has one more pending change.
                    assert(self@.vfs.change.file_changes.len() == before.change.file_changes.len() + 1);
                }
            }
            if !applied {
                skipped = skipped + 1;
            }
            i += 1;
        }
        assert(edits@.take(edits.len() as int) =~= edits@);
        self.apply_vfs_change();
        skipped
    }
}

/// The refused settings as lines of a list, each started by a dash.
pub open spec fn listed(errors: Seq<Seq<char>>) -> Seq<char>
    decreases errors.len(),
{
    if errors.len() == 0 {
        Seq::empty()
    } else {
        listed(errors.drop_last()) + "\n- "@ + errors.last()
    }
}

/// What the user is told when settings were refused.
pub open spec fn settings_error_message(errors: Seq<Seq<char>>) -> Seq<char> {
    "Failed to apply some settings:"@ + listed(errors)
}

impl ServerView {
    /// The state after the diagnostics of the first `n` open documents
    /// were asked for.
    pub open spec fn diagnose_opened(self, n: int, version: u64) -> ServerView
        decreases n,
    {
        if n <= 0 {
            self
        } else {
            self.diagnose_opened(n - 1, version).update_diagnostics(self.opened[n - 1].uri, version)
        }
    }

    /// The state after the editor's settings were taken in: they are
    /// merged into the configuration, the user is told of those that were
    /// refused, and where they bear on the diagnostics a new version is
    /// given out and the diagnostics of every open document are asked for.
    pub open spec fn update_config(self, settings: Settings) -> ServerView
    {
        let merged = ServerView { config: self.config.updated(settings), ..self };
        let told = if settings.errors().len() > 0 {
            merged.show_message(MessageLevel::Error, settings_error_message(settings.errors()))
        } else {
            merged
        };
        if settings.affects_diagnostics() {
            let version = (self.version + 1) as u64;
            (ServerView { version, ..told }).diagnose_opened(told.opened.len() as int, version)
        } else {
            told
        }
    }

    /// The state after a worker was asked to look at the flake of the workspace.
    pub open spec fn load_flake(self) -> ServerView {
        self.emit(
            EffectView::ProbeFlake {
                flake_path: path_joined(self.config.root_path, flake_file_name()),
                lock_path: path_joined(self.config.root_path, flake_lock_name()),
                nix_binary: self.config.nix_binary,
            },
        )
    }

    /// The state after the worker has looked at the flake.
    pub open spec fn flake_probed(self, probe: FlakeProbe) -> ServerView
    {
        let loaded = flake_loaded(
            self.vfs,
            path_joined(self.config.root_path, flake_file_name()),
            path_joined(self.config.root_path, flake_lock_name()),
            probe,
        );
        (ServerView { vfs: loaded.1, ..self }).on_flake(loaded.0)
    }

    /// The state after the client's answer about the configuration was
    /// dealt with: the settings are taken in where there are any, and the
    /// flake is looked at if that was wished.
    pub open spec fn configuration_loaded(
        self,
        settings: Option<Settings>,
        then_load_flake: bool,
    ) -> ServerView
    {
        let configured = match settings {
            Some(s) => self.update_config(s),
            None => self,
        };
        if then_load_flake {
            configured.load_flake()
        } else {
            configured
        }
    }

    /// Asking for diagnostics changes nothing but what was asked for.
    pub proof fn lemma_diagnose_opened_keeps(self, n: int, version: u64)
        ensures
            self.diagnose_opened(n, version) == (ServerView {
                outbox: self.diagnose_opened(n, version).outbox,
                ..self
            }),
        decreases n,
    {
        if n > 0 {
            self.lemma_diagnose_opened_keeps(n - 1, version);
        }
    }
}

impl Server {
    /// Takes in the editor's settings.
    pub fn update_config(&mut self, settings: Settings)
        requires
            old(self).wf(),
            settings.affects_diagnostics() ==> old(self)@.version < u64::MAX,
        ensures
            final(self).wf(),
            final(self)@ == old(self)@.update_config(settings),
    {
        let (errors, updated_diagnostics) = self.config.update(settings);
        if errors.len() > 0 {
            let mut text = "Failed to apply some settings:".to_owned();
            let ghost head = text@;
            let mut i: usize = 0;
            while i < errors.len()
                invariant
                    i <= errors.len(),
                    text@ == head + listed(texts(errors@).take(i as int)),
                decreases errors.len() - i,
            {
                proof {
                    let all = texts(errors@);
                    assert(all.take(i + 1).drop_last() =~= all.take(i as int));
                    assert(all.take(i + 1).last() == errors@[i as int]@);
                    assert(listed(all.take(i + 1)) == listed(all.take(i as int)) + "\n- "@
                        + errors@[i as int]@);
                }
                text.append("\n- ");
                text.append(errors[i].as_str());
                assert(text@ =~= head + listed(texts(errors@).take(i + 1)));
                i += 1;
            }
            assert(texts(errors@).take(errors.len() as int) =~= texts(errors@));
            self.show_message(MessageLevel::Error, text);
        }
        if updated_diagnostics {
            let version = self.next_version();
            let ghost base = self@;
            let mut k: usize = 0;
            while k < self.opened_files.len()
                invariant
                    self.wf(),
                    k <= self.opened_files.len(),
                    self.opened_files.len() == base.opened.len(),
                    self@ == base.diagnose_opened(k as int, version),
                decreases self.opened_files.len() - k,
            {
                proof {
                    base.lemma_diagnose_opened_keeps(k as int, version);
                }
                let uri = self.opened_files[k].uri.clone();
                self.update_diagnostics(uri, version);
                proof {
                    base.lemma_diagnose_opened_keeps(k + 1, version);
                }
                k += 1;
            }
        }
    }

    /// Asks a worker to look at the flake of the workspace and at the
    /// inputs that its lock file pins.
    pub fn load_flake(&mut self)
        requires
            old(self).wf(),
        ensures
            final(self).wf(),
            final(self)@ == old(self)@.load_flake(),
    {
        let flake_path = join_path(self.config.root_path.as_str(), "flake.nix");
        let lock_path = join_path(self.config.root_path.as_str(), "flake.lock");
        let nix_binary = self.config.nix_binary.clone();
        self.emit(Effect::ProbeFlake { flake_path, lock_path, nix_binary });
    }

    /// Takes in what the worker found of the flake on disk.
    pub fn flake_probed(&mut self, probe: FlakeProbe)
        requires
            old(self).wf(),
            old(self)@.probe_gives_version(probe) ==> old(self)@.version < u64::MAX,
        ensures
            final(self).wf(),
            final(self)@ == old(self)@.flake_probed(probe),
    {
        let flake_path = join_path(self.config.root_path.as_str(), "flake.nix");
        let lock_path = join_path(self.config.root_path.as_str(), "flake.lock");
        let outcome = load_flake_result(&mut self.vfs, &flake_path, &lock_path, probe);
        proof {
            assert forall|a: int, b: int| 0 <= a < b < self@.opened.len() implies (
            #[trigger] self@.opened[a]).uri != (#[trigger] self@.opened[b]).uri by {
                assert(old(self)@.opened[a].uri != old(self)@.opened[b].uri);
            }
        }
        let _done = self.dispatch_event(Event::LoadFlake(outcome));
    }

    /// Deals with the client's answer about the configuration: takes the
    /// settings in, where the answer held any, and has the flake looked at
    /// if that was wished when the question was asked.
    pub fn configuration_loaded(&mut self, settings: Option<Settings>, then_load_flake: bool)
        requires
            old(self).wf(),
            configuration_gives_version(settings) ==> old(self)@.version < u64::MAX,
        ensures
            final(self).wf(),
            final(self)@ == old(self)@.configuration_loaded(settings, then_load_flake),
    {
        match settings {
            Some(s) => self.update_config(s),
            None => {},
        }
        if then_load_flake {
            self.load_flake();
        }
    }
}

/// What became of a notification.
#[derive(Clone, Copy, Debug, PartialEq, Eq, Structural)]
pub enum Noted {
    /// It was dealt with; of the edits it held, so many did not fit the
    /// content and were passed over.
    Handled { skipped_edits: usize },
    /// Its parameters could not be decoded.
    Undecodable,
    /// It is none that a server has to know.
    Optional,
    /// No handler knows it.
    Unhandled,
}

/// Why the client's answer holds no settings.
#[derive(Debug)]
pub enum SettingsFailure {
    /// The client answered with an error.
    Refused(ResponseError),
    /// The result is no list of values.
    Undecodable,
}

/// The client's answer to the question for the configuration.
#[derive(Debug)]
pub struct ConfigurationReply {
    /// The settings that the client sent for the section, or why there are none.
    pub settings: Result<Value, SettingsFailure>,
    /// Whether the flake is to be looked at once the settings are in.
    pub then_load_flake: bool,
}

/// How the session goes on after a message of the client.
#[derive(Debug)]
pub enum Flow {
    /// With the next message.
    Continue,
    /// With the client's answer about the configuration.
    Configure(ConfigurationReply),
    /// Not at all: the client said goodbye.
    Exit,
}

/// The settings in a response of the client: the last of the values that
/// its result lists, where nothing stands for the empty value; none where
/// the response is an error or its result lists no values.
pub open spec fn reply_settings(response: Response) -> Result<Value, SettingsFailure> {
    match response.error {
        Some(e) => Err(SettingsFailure::Refused(e)),
        None => {
            let result = match response.result {
                Some(value) => value,
                None => null_value(),
            };
            match value_list(result) {
                None => Err(SettingsFailure::Undecodable),
                Some(values) => Ok(
                    if values.len() > 0 {
                        values.last()
                    } else {
                        null_value()
                    },
                ),
            }
        },
    }
}

impl ServerView {
    /// The state after a notification of the client came in.
    pub open spec fn on_notification(self, method: Seq<char>, params: Value) -> ServerView
    {
        match notification_kind_of(method) {
            NotificationKind::Cancel => match cancel_params(params) {
                Some(id) => self.on_cancel(id),
                None => self,
            },
            NotificationKind::DidOpen => match open_params(params) {
                Some((uri, text)) => self.on_did_open(uri, text),
                None => self,
            },
            NotificationKind::DidClose => match close_params(params) {
                Some(uri) => self.on_did_close(uri),
                None => self,
            },
            NotificationKind::DidChange => match change_params(params) {
                Some((uri, edits)) => self.on_did_change(uri, edits),
                None => self,
            },
            NotificationKind::DidChangeConfiguration => self.load_config(false),
            _ => self,
        }
    }

    /// What becomes of a notification: how it is noted, or the error that
    /// ends the session.
    pub open spec fn notification_outcome(self, method: Seq<char>, params: Value) -> Result<
        Noted,
        ServerError,
    > {
        match notification_kind_of(method) {
            NotificationKind::Cancel => Ok(
                if cancel_params(params) is Some {
                    Noted::Handled { skipped_edits: 0 }
                } else {
                    Noted::Undecodable
                },
            ),
            NotificationKind::DidOpen => match open_params(params) {
                Some((uri, text)) => match self.vfs.set_uri(uri, encode_utf8(text)) {
                    Ok(_) => Ok(Noted::Handled { skipped_edits: 0 }),
                    Err(e) => Err(ServerError::Vfs(e)),
                },
                None => Ok(Noted::Undecodable),
            },
            NotificationKind::DidClose => Ok(
                if close_params(params) is Some {
                    Noted::Handled { skipped_edits: 0 }
                } else {
                    Noted::Undecodable
                },
            ),
            NotificationKind::DidChange => match change_params(params) {
                Some((uri, edits)) => match self.vfs.file_of_uri(uri) {
                    Ok(file) => Ok(
                        Noted::Handled {
                            skipped_edits: edits_skipped(self.vfs, file, edits) as usize,
                        },
                    ),
                    Err(_) => Ok(Noted::Handled { skipped_edits: 0 }),
                },
                None => Ok(Noted::Undecodable),
            },
            NotificationKind::DidChangeConfiguration => Ok(Noted::Handled { skipped_edits: 0 }),
            NotificationKind::DidChangeWatchedFiles => Ok(Noted::Handled { skipped_edits: 0 }),
            NotificationKind::Optional => Ok(Noted::Optional),
            NotificationKind::Unhandled => Ok(Noted::Unhandled),
        }
    }

    /// The state after a response of the client came in: what waited for
    /// it waits no longer.
    pub open spec fn on_client_response(self, id: RequestId) -> ServerView {
        ServerView { outgoing: self.outgoing.remove(id), ..self }
    }

    /// The state after a message of the client came in.
    pub open spec fn on_message(self, message: Message) -> ServerView
    {
        match message {
            Message::Request(request) => self.on_request(request_view(request)),
            Message::Notification(notification) => if notification.method@ == "exit"@ {
                self
            } else {
                self.on_notification(notification.method@, notification.params)
            },
            Message::Response(response) => self.on_client_response(response.id),
        }
    }
}

impl Server {
    /// Takes in a notification of the client.
    pub fn dispatch_notification(
        &mut self,
        notification: Notification,
    ) -> (r: Result<Noted, ServerError>)
        requires
            old(self).wf(),
            old(self)@.notification_gives_version(notification.method@, notification.params)
                ==> old(self)@.version < u64::MAX,
        ensures
            final(self).wf(),
            final(self)@ == old(self)@.on_notification(notification.method@, notification.params),
            r == old(self)@.notification_outcome(notification.method@, notification.params),
    {
        match notification_kind(&notification.method) {
            NotificationKind::Cancel => {
                match decode_cancel(notification.params) {
                    Some(id) => {
                        self.on_cancel(id);
                        Ok(Noted::Handled { skipped_edits: 0 })
                    },
                    None => Ok(Noted::Undecodable),
                }
            },
            NotificationKind::DidOpen => {
                match decode_open(notification.params) {
                    Some((uri, text)) => {
                        match self.on_did_open(uri, text) {
                            Ok(()) => Ok(Noted::Handled { skipped_edits: 0 }),
                            Err(e) => Err(ServerError::Vfs(e)),
                        }
                    },
                    None => Ok(Noted::Undecodable),
                }
            },
            NotificationKind::DidClose => {
                match decode_close(notification.params) {
                    Some(uri) => {
                        self.on_did_close(&uri);
                        Ok(Noted::Handled { skipped_edits: 0 })
                    },
                    None => Ok(Noted::Undecodable),
                }
            },
            NotificationKind::DidChange => {
                match decode_change(notification.params) {
                    Some((uri, edits)) => {
                        let skipped = self.on_did_change(&uri, edits);
                        Ok(Noted::Handled { skipped_edits: skipped })
                    },
                    None => Ok(Noted::Undecodable),
                }
            },
            NotificationKind::DidChangeConfiguration => {
                self.load_config(false);
                Ok(Noted::Handled { skipped_edits: 0 })
            },
            NotificationKind::DidChangeWatchedFiles => Ok(Noted::Handled { skipped_edits: 0 }),
            NotificationKind::Optional => Ok(Noted::Optional),
            NotificationKind::Unhandled => Ok(Noted::Unhandled),
        }
    }

    /// Takes in a response of the client. Hands out the client's answer
    /// where the response is one to the question for the configuration;
    /// a response that nothing waits for is dropped.
    pub fn handle_response(&mut self, response: Response) -> (reply: Option<ConfigurationReply>)
        requires
            old(self).wf(),
        ensures
            final(self).wf(),
            final(self)@ == old(self)@.on_client_response(response.id),
            reply == (if old(self)@.outgoing.contains_key(response.id) {
                Some(
                    ConfigurationReply {
                        settings: reply_settings(response),
                        then_load_flake: old(self)@.outgoing[response.id]->then_load_flake,
                    },
                )
            } else {
                None
            }),
    {
        match outgoing_complete(&mut self.req_queue.outgoing, response.id.clone()) {
            Some(Pending::Configuration { then_load_flake }) => {
                let settings = match response.error {
                    Some(e) => Err(SettingsFailure::Refused(e)),
                    None => {
                        let result = match response.result {
                            Some(value) => value,
                            None => default_json(),
                        };
                        match decode_values(result) {
                            None => Err(SettingsFailure::Undecodable),
                            Some(mut values) => match values.pop() {
                                Some(last) => Ok(last),
                                None => Ok(default_json()),
                            },
                        }
                    },
                };
                Some(ConfigurationReply { settings, then_load_flake })
            },
            None => None,
        }
    }

    /// Takes in a message of the client and says how the session goes on.
    pub fn handle_message(&mut self, message: Message) -> (r: Result<Flow, ServerError>)
        requires
            old(self).wf(),
            old(self)@.message_gives_version(message) ==> old(self)@.version < u64::MAX,
        ensures
            final(self).wf(),
            final(self)@ == old(self)@.on_message(message),
            match message {
                Message::Request(_) => r == Ok::<Flow, ServerError>(Flow::Continue),
                Message::Notification(n) => if n.method@ == "exit"@ {
                    r == Ok::<Flow, ServerError>(Flow::Exit)
                } else {
                    match old(self)@.notification_outcome(n.method@, n.params) {
                        Ok(_) => r == Ok::<Flow, ServerError>(Flow::Continue),
                        Err(e) => r == Err::<Flow, ServerError>(e),
                    }
                },
                Message::Response(response) => r == Ok::<Flow, ServerError>(
                    if old(self)@.outgoing.contains_key(response.id) {
                        Flow::Configure(
                            ConfigurationReply {
                                settings: reply_settings(response),
                                then_load_flake: old(self)@.outgoing[response.id]->then_load_flake,
                            },
                        )
                    } else {
                        Flow::Continue
                    },
                ),
            },
    {
        match message {
            Message::Request(request) => {
                self.dispatch_request(request);
                Ok(Flow::Continue)
            },
            Message::Notification(notification) => {
                if is_exit(&notification.method) {
                    return Ok(Flow::Exit);
                }
                match self.dispatch_notification(notification) {
                    Ok(_) => Ok(Flow::Continue),
                    Err(e) => Err(e),
                }
            },
            Message::Response(response) => {
                match self.handle_response(response) {
                    Some(reply) => Ok(Flow::Configure(reply)),
                    None => Ok(Flow::Continue),
                }
            },
        }
    }

    /// Begins the session: asks the client for the configuration, and has
    /// the flake looked at once the answer is in.
    pub fn start(&mut self)
        requires
            old(self).wf(),
        ensures
            final(self).wf(),
            final(self)@ == old(self)@.load_config(true),
    {
        self.load_config(true);
    }
}

/// An input of the server: something that the event loop takes in.
pub enum Step {
    /// A message of the client.
    Message(Message),
    /// An event of a worker or of the watcher of the client's process.
    Event(EventView),
    /// The client's answer about the configuration, decoded.
    Configured(Option<Settings>, bool),
    /// What a worker found of the flake on disk.
    FlakeProbed(FlakeProbe),
}

/// Whether taking in the settings gives out a version: they bear on the
/// diagnostics.
pub open spec fn configuration_gives_version(settings: Option<Settings>) -> bool {
    match settings {
        Some(s) => s.affects_diagnostics(),
        None => false,
    }
}

impl ServerView {
    /// Whether the event gives out a version: the flake was loaded, which
    /// commits a change.
    pub open spec fn event_gives_version(self, event: EventView) -> bool {
        match event {
            EventView::LoadFlake(Ok(_)) => true,
            _ => false,
        }
    }

    /// Whether what was found of the flake gives out a version: the
    /// loading succeeds, which commits a change.
    pub open spec fn probe_gives_version(self, probe: FlakeProbe) -> bool {
        flake_loaded(
            self.vfs,
            path_joined(self.config.root_path, flake_file_name()),
            path_joined(self.config.root_path, flake_lock_name()),
            probe,
        ).0 is Ok
    }

    /// Whether the notification gives out a version: it opens a document
    /// whose text the file system takes, or edits one that it holds.
    pub open spec fn notification_gives_version(self, method: Seq<char>, params: Value) -> bool {
        match notification_kind_of(method) {
            NotificationKind::DidOpen => match open_params(params) {
                Some((uri, text)) => self.vfs.set_uri(uri, encode_utf8(text)) is Ok,
                None => false,
            },
            NotificationKind::DidChange => match change_params(params) {
                Some((uri, _)) => self.vfs.file_of_uri(uri) is Ok,
                None => false,
            },
            _ => false,
        }
    }

    /// Whether the message gives out a version.
    pub open spec fn message_gives_version(self, message: Message) -> bool {
        match message {
            Message::Notification(n) => n.method@ != "exit"@ && self.notification_gives_version(
                n.method@,
                n.params,
            ),
            _ => false,
        }
    }

    /// Whether the input gives out a version. Only such an input needs
    /// one to be left.
    pub open spec fn step_gives_version(self, step: Step) -> bool {
        match step {
            Step::Message(message) => self.message_gives_version(message),
            Step::Event(event) => self.event_gives_version(event),
            Step::Configured(settings, _) => configuration_gives_version(settings),
            Step::FlakeProbed(probe) => self.probe_gives_version(probe),
        }
    }
}

impl ServerView {
    /// The state after one input.
    pub open spec fn step(self, step: Step) -> ServerView {
        match step {
            Step::Message(message) => self.on_message(message),
            Step::Event(event) => self.on_event(event),
            Step::Configured(settings, then_load_flake) => self.configuration_loaded(
                settings,
                then_load_flake,
            ),
            Step::FlakeProbed(probe) => self.flake_probed(probe),
        }
    }

    /// The state after a run of inputs.
    pub open spec fn run(self, steps: Seq<Step>) -> ServerView
        decreases steps.len(),
    {
        if steps.len() == 0 {
            self
        } else {
            self.run(steps.drop_last()).step(steps.last())
        }
    }
}

/// An input of the server as the event loop has it.
#[derive(Debug)]
pub enum Input {
    /// A message of the client.
    Message(Message),
    /// An event of a worker or of the watcher of the client's process.
    Event(Event),
    /// The client's answer about the configuration, decoded.
    Configured(Option<Settings>, bool),
    /// What a worker found of the flake on disk.
    FlakeProbed(FlakeProbe),
}

impl View for Input {
    type V = Step;

    open spec fn view(&self) -> Step {
        match *self {
            Input::Message(message) => Step::Message(message),
            Input::Event(event) => Step::Event(event@),
            Input::Configured(settings, then_load_flake) => Step::Configured(
                settings,
                then_load_flake,
            ),
            Input::FlakeProbed(probe) => Step::FlakeProbed(probe),
        }
    }
}

impl Server {
    /// Takes in one input, whatever it is, and says how the session goes
    /// on, or why it ends.
    pub fn step(&mut self, input: Input) -> (r: Result<Flow, ServerError>)
        requires
            old(self).wf(),
            old(self)@.step_gives_version(input@) ==> old(self)@.version < u64::MAX,
        ensures
            final(self).wf(),
            final(self)@ == old(self)@.step(input@),
            match input {
                Input::Event(event) => r == (if event is ClientExited {
                    Err::<Flow, ServerError>(ServerError::ClientExited)
                } else {
                    Ok(Flow::Continue)
                }),
                Input::Message(Message::Notification(n)) => if n.method@ == "exit"@ {
                    r == Ok::<Flow, ServerError>(Flow::Exit)
                } else {
                    match old(self)@.notification_outcome(n.method@, n.params) {
                        Ok(_) => r == Ok::<Flow, ServerError>(Flow::Continue),
                        Err(e) => r == Err::<Flow, ServerError>(e),
                    }
                },
                Input::Message(Message::Response(response)) => r == Ok::<Flow, ServerError>(
                    if old(self)@.outgoing.contains_key(response.id) {
                        Flow::Configure(
                            ConfigurationReply {
                                settings: reply_settings(response),
                                then_load_flake: old(self)@.outgoing[response.id]->then_load_flake,
                            },
                        )
                    } else {
                        Flow::Continue
                    },
                ),
                _ => r == Ok::<Flow, ServerError>(Flow::Continue),
            },
    {
        match input {
            Input::Message(message) => self.handle_message(message),
            Input::Event(event) => match self.dispatch_event(event) {
                Ok(()) => Ok(Flow::Continue),
                Err(e) => Err(e),
            },
            Input::Configured(settings, then_load_flake) => {
                self.configuration_loaded(settings, then_load_flake);
                Ok(Flow::Continue)
            },
            Input::FlakeProbed(probe) => {
                self.flake_probed(probe);
                Ok(Flow::Continue)
            },
        }
    }
}

} // verus!
