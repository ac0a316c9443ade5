//! The virtual file system: file contents under stable identifiers, edits
//! by byte span, and the changes that wait for the analysis.

use lsp_types::{Position, Range, Url};
use std::sync::Arc;
use vstd::prelude::*;
use vstd::string::*;

verus! {

/// Identifier of a file: the index under which the file system holds it.
#[derive(Clone, Copy, Debug, PartialEq, Eq, Hash, Structural)]
pub struct FileId(pub u32);

/// Why the file system refused an operation.
#[derive(Clone, Copy, Debug, PartialEq, Eq, Structural)]
pub enum VfsError {
    /// The URI names no local file.
    NonFileUri,
    /// The path has no URI.
    InvalidPath,
    /// No identifier is left for another file.
    TooManyFiles,
    /// The content is longer than an offset can address.
    FileTooLarge,
    /// No file has this identifier.
    InvalidFile,
    /// The span does not lie inside the content.
    InvalidRange,
    /// No file is known under this path or URI.
    NotFound,
}

impl VfsError {
    /// What the error says.
    pub open spec fn text(self) -> Seq<char> {
        match self {
            VfsError::NonFileUri => "Non-file URI"@,
            VfsError::InvalidPath => "Invalid path"@,
            VfsError::TooManyFiles => "Too many files"@,
            VfsError::FileTooLarge => "File too large"@,
            VfsError::InvalidFile => "Invalid file"@,
            VfsError::InvalidRange => "Invalid range"@,
            VfsError::NotFound => "File not found"@,
        }
    }

    /// What the error says.
    pub fn message(self) -> (text: String)
        ensures
            text@ == self.text(),
    {
        match self {
            VfsError::NonFileUri => "Non-file URI".to_owned(),
            VfsError::InvalidPath => "Invalid path".to_owned(),
            VfsError::TooManyFiles => "Too many files".to_owned(),
            VfsError::FileTooLarge => "File too large".to_owned(),
            VfsError::InvalidFile => "Invalid file".to_owned(),
            VfsError::InvalidRange => "Invalid range".to_owned(),
            VfsError::NotFound => "File not found".to_owned(),
        }
    }
}

/// The longest content a file may have.
pub const MAX_FILE_LEN: usize = 0xffff_ffff;

/// The byte that ends a line.
pub const NEWLINE: u8 = 10;

/// `index` lists, in ascending order, exactly the places of the line ends in `content`.
pub open spec fn is_line_index(index: Seq<usize>, content: Seq<u8>) -> bool {
    &&& forall|i: int, j: int| 0 <= i < j < index.len() ==> index[i] < index[j]
    &&& forall|i: int| 0 <= i < index.len() ==> index[i] < content.len() && content[index[i] as int] == NEWLINE
    &&& forall|p: int|
        0 <= p < content.len() && content[p] == NEWLINE ==> exists|i: int|
            0 <= i < index.len() && index[i] == p
}

/// Two line indexes of one content are the same list.
pub proof fn lemma_line_index_unique(a: Seq<usize>, b: Seq<usize>, content: Seq<u8>)
    requires
        is_line_index(a, content),
        is_line_index(b, content),
    ensures
        a == b,
    decreases a.len() + b.len(),
{
    if a.len() == 0 || b.len() == 0 {
        // A line end that one list names the other names too.
        if b.len() > 0 {
            assert(content[b[0] as int] == NEWLINE);
        }
        if a.len() > 0 {
            assert(content[a[0] as int] == NEWLINE);
        }
        assert(a =~= b);
    } else {
        // Both lists end with the last line end of the content.
        let la = a.last() as int;
        let lb = b.last() as int;
        assert(la == lb) by {
            assert(content[la] == NEWLINE && content[lb] == NEWLINE);
            let ib = choose|i: int| 0 <= i < b.len() && b[i] == la;
            let ia = choose|i: int| 0 <= i < a.len() && a[i] == lb;
            assert(ia == a.len() - 1 || a[ia] < a[a.len() - 1]);
            assert(ib == b.len() - 1 || b[ib] < b[b.len() - 1]);
        }
        let cut = content.take(la);
        let a0 = a.drop_last();
        let b0 = b.drop_last();
        assert(is_line_index(a0, cut)) by {
            assert forall|p: int| 0 <= p < cut.len() && cut[p] == NEWLINE implies exists|i: int|
                0 <= i < a0.len() && a0[i] == p by {
                let i = choose|i: int| 0 <= i < a.len() && a[i] == p;
                assert(i < a.len() - 1);
                assert(a0[i] == p);
            }
            assert forall|i: int| 0 <= i < a0.len() implies a0[i] < cut.len() && cut[a0[i] as int]
                == NEWLINE by {
                assert(a[i] < a[a.len() - 1]);
            }
        }
        assert(is_line_index(b0, cut)) by {
            assert forall|p: int| 0 <= p < cut.len() && cut[p] == NEWLINE implies exists|i: int|
                0 <= i < b0.len() && b0[i] == p by {
                let i = choose|i: int| 0 <= i < b.len() && b[i] == p;
                assert(i < b.len() - 1);
                assert(b0[i] == p);
            }
            assert forall|i: int| 0 <= i < b0.len() implies b0[i] < cut.len() && cut[b0[i] as int]
                == NEWLINE by {
                assert(b[i] < b[b.len() - 1]);
            }
        }
        lemma_line_index_unique(a0, b0, cut);
        assert(a =~= a0.push(a.last()));
        assert(b =~= b0.push(b.last()));
    }
}

/// Lists where the lines of `content` end.
pub fn line_index(content: &Vec<u8>) -> (index: Vec<usize>)
    ensures
        is_line_index(index@, content@),
{
    let mut index: Vec<usize> = Vec::new();
    let mut p: usize = 0;
    while p < content.len()
        invariant
            p <= content.len(),
            forall|i: int, j: int| 0 <= i < j < index.len() ==> index[i] < index[j],
            forall|i: int| 0 <= i < index.len() ==> index[i] < p && content[index[i] as int] == NEWLINE,
            forall|q: int|
                0 <= q < p && content[q] == NEWLINE ==> exists|i: int|
                    0 <= i < index.len() && index[i] == q,
        decreases content.len() - p,
    {
        if content[p] == NEWLINE {
            let ghost before = index@;
            index.push(p);
            assert forall|q: int| 0 <= q < p + 1 && content[q] == NEWLINE implies exists|i: int|
                0 <= i < index.len() && index[i] == q by {
                if q < p {
                    let i = choose|i: int| 0 <= i < before.len() && before[i] == q;
                    assert(index[i] == q);
                } else {
                    assert(index[before.len() as int] == q);
                }
            }
        }
        p += 1;
    }
    index
}

/// The local path that a URI names, where it names one.
pub uninterp spec fn uri_file_path(uri: Seq<char>) -> Option<Seq<char>>;

/// The URI of a local path, where it has one.
pub uninterp spec fn file_path_uri(path: Seq<char>) -> Option<Seq<char>>;

/// The text that an optional string holds.
pub open spec fn text_of(s: Option<String>) -> Option<Seq<char>> {
    match s {
        Some(t) => Some(t@),
        None => None,
    }
}

/// Parses the URI with `Url::parse` and asks `Url::to_file_path` for the
/// local path; `None` where either fails or the path is no UTF-8 text.
#[verifier::external_body]
pub(crate) fn uri_to_path(uri: &str) -> (path: Option<String>)
    ensures
        text_of(path) == uri_file_path(uri@),
{
    let url = Url::parse(uri).ok()?;
    url.to_file_path().ok()?.into_os_string().into_string().ok()
}

/// Asks `Url::from_file_path` for the URI of a path; `None` where the path
/// is not absolute.
#[verifier::external_body]
pub(crate) fn path_to_uri(path: &str) -> (uri: Option<String>)
    ensures
        text_of(uri) == file_path_uri(path@),
{
    Url::from_file_path(path).ok().map(String::from)
}

/// Where the workspace lies.
#[derive(Debug)]
pub enum WorkspaceRoot {
    /// Under this path.
    Path(String),
    /// Where the server was started: the client named no root.
    WorkingDirectory,
}

/// Where the workspace lies, going by the root that the client named: the
/// local path of its URI, or the refusal of a URI that names none.
pub open spec fn workspace_root_of(
    root_uri: Option<Seq<char>>,
) -> Result<Option<Seq<char>>, Seq<char>> {
    match root_uri {
        None => Ok(None),
        Some(uri) => match uri_file_path(uri) {
            Some(path) => Ok(Some(path)),
            None => Err("Non-file URI: "@ + uri),
        },
    }
}

/// Finds where the workspace lies.
pub fn workspace_root(root_uri: Option<&str>) -> (r: Result<WorkspaceRoot, String>)
    ensures
        match workspace_root_of(
            match root_uri {
                Some(uri) => Some(uri@),
                None => None,
            },
        ) {
            Ok(Some(path)) => r is Ok && r->Ok_0 is Path && r->Ok_0->Path_0@ == path,
            Ok(None) => r is Ok && r->Ok_0 is WorkingDirectory,
            Err(message) => r is Err && r->Err_0@ == message,
        },
{
    match root_uri {
        None => Ok(WorkspaceRoot::WorkingDirectory),
        Some(uri) => match uri_to_path(uri) {
            Some(path) => Ok(WorkspaceRoot::Path(path)),
            None => {
                let mut message = "Non-file URI: ".to_owned();
                message.append(uri);
                Err(message)
            },
        },
    }
}

/// What the file system knows of a file.
pub struct FileView {
    pub path: Seq<char>,
    pub uri: Seq<char>,
    pub content: Seq<u8>,
}

/// No name stands twice among the inputs.
pub open spec fn names_distinct(inputs: Seq<(Seq<char>, Seq<char>)>) -> bool {
    forall|i: int, j: int|
        0 <= i < j < inputs.len() ==> (#[trigger] inputs[i]).0 != (#[trigger] inputs[j]).0
}

/// The texts of a list of pairs of strings.
pub open spec fn pairs_view(list: Seq<(String, String)>) -> Seq<(Seq<char>, Seq<char>)> {
    Seq::new(list.len(), |i: int| (list[i].0@, list[i].1@))
}

/// No string stands twice in the list.
pub open spec fn strings_differ(list: Seq<String>) -> bool {
    forall|i: int, j: int| 0 <= i < j < list.len() ==> (#[trigger] list[i])@ != (#[trigger] list[j])@
}

/// Says whether no string stands twice in the list.
pub fn all_differ(list: &Vec<String>) -> (r: bool)
    ensures
        r == strings_differ(list@),
{
    let mut j: usize = 0;
    while j < list.len()
        invariant
            j <= list.len(),
            forall|a: int, b: int| 0 <= a < b < j ==> (#[trigger] list@[a])@ != (#[trigger] list@[b])@,
        decreases list.len() - j,
    {
        let mut i: usize = 0;
        while i < j
            invariant
                i <= j < list.len(),
                forall|a: int| 0 <= a < i ==> (#[trigger] list@[a])@ != list@[j as int]@,
            decreases j - i,
        {
            if list[i] == list[j] {
                assert(list@[i as int]@ == list@[j as int]@);
                return false;
            }
            i += 1;
        }
        j += 1;
    }
    true
}

/// The root file of a flake and where its inputs are stored, each input
/// under a name of its own.
#[derive(Debug)]
pub struct FlakeInfo {
    flake_file: FileId,
    input_store_paths: Vec<(String, String)>,
}

pub struct FlakeInfoView {
    pub flake_file: FileId,
    pub input_store_paths: Seq<(Seq<char>, Seq<char>)>,
}

impl View for FlakeInfo {
    type V = FlakeInfoView;

    closed spec fn view(&self) -> FlakeInfoView {
        FlakeInfoView {
            flake_file: self.flake_file,
            input_store_paths: pairs_view(self.input_store_paths@),
        }
    }
}

/// The view of an optional flake table.
pub open spec fn flake_view(info: Option<FlakeInfo>) -> Option<FlakeInfoView> {
    match info {
        Some(i) => Some(i@),
        None => None,
    }
}

impl FlakeInfo {
    /// No name stands twice among the inputs.
    #[verifier::type_invariant]
    closed spec fn valid(&self) -> bool {
        names_distinct(self@.input_store_paths)
    }

    /// The table of a flake whose inputs have names of their own.
    pub(crate) fn from_distinct(flake_file: FileId, input_store_paths: Vec<(String, String)>) -> (info:
        FlakeInfo)
        requires
            names_distinct(pairs_view(input_store_paths@)),
        ensures
            info@ == (FlakeInfoView {
                flake_file,
                input_store_paths: pairs_view(input_store_paths@),
            }),
    {
        FlakeInfo { flake_file, input_store_paths }
    }

    /// The table of a flake; none where a name stands twice among the inputs.
    pub fn new(flake_file: FileId, input_store_paths: Vec<(String, String)>) -> (r: Option<FlakeInfo>)
        ensures
            r is Some == names_distinct(pairs_view(input_store_paths@)),
            r is Some ==> r->0@ == (FlakeInfoView {
                flake_file,
                input_store_paths: pairs_view(input_store_paths@),
            }),
    {
        let mut names: Vec<String> = Vec::new();
        let mut i: usize = 0;
        while i < input_store_paths.len()
            invariant
                i <= input_store_paths.len(),
                names.len() == i,
                forall|k: int| 0 <= k < i ==> (#[trigger] names@[k])@ == input_store_paths@[k].0@,
            decreases input_store_paths.len() - i,
        {
            names.push(input_store_paths[i].0.clone());
            i += 1;
        }
        let distinct = all_differ(&names);
        proof {
            let pairs = pairs_view(input_store_paths@);
            if distinct {
                assert forall|a: int, b: int| 0 <= a < b < pairs.len() implies (#[trigger] pairs[a]).0
                    != (#[trigger] pairs[b]).0 by {
                    assert(names@[a]@ != names@[b]@);
                }
            } else {
                let (a, b) = choose|a: int, b: int|
                    0 <= a < b < names@.len() && (#[trigger] names@[a])@ == (#[trigger] names@[b])@;
                assert(pairs[a].0 == pairs[b].0);
            }
        }
        if distinct {
            Some(FlakeInfo::from_distinct(flake_file, input_store_paths))
        } else {
            None
        }
    }

    /// The root file of the flake.
    pub fn flake_file(&self) -> (file: FileId)
        ensures
            file == self@.flake_file,
    {
        self.flake_file
    }

    /// Name and store path of each input; no name stands twice.
    pub fn input_store_paths(&self) -> (inputs: &Vec<(String, String)>)
        ensures
            pairs_view(inputs@) == self@.input_store_paths,
            names_distinct(self@.input_store_paths),
    {
        proof {
            use_type_invariant(self);
        }
        &self.input_store_paths
    }

    /// A copy of the table.
    pub fn duplicate(&self) -> (copy: FlakeInfo)
        ensures
            copy@ == self@,
    {
        proof {
            use_type_invariant(self);
        }
        let mut inputs: Vec<(String, String)> = Vec::new();
        let mut i: usize = 0;
        while i < self.input_store_paths.len()
            invariant
                i <= self.input_store_paths.len(),
                inputs.len() == i,
                forall|k: int|
                    0 <= k < i ==> (#[trigger] inputs@[k]).0@ == self.input_store_paths@[k].0@
                        && inputs@[k].1@ == self.input_store_paths@[k].1@,
            decreases self.input_store_paths.len() - i,
        {
            let name = self.input_store_paths[i].0.clone();
            let path = self.input_store_paths[i].1.clone();
            inputs.push((name, path));
            i += 1;
        }
        assert(pairs_view(inputs@) =~= self@.input_store_paths);
        FlakeInfo::from_distinct(self.flake_file, inputs)
    }
}

/// The new content of one file.
#[derive(Debug)]
pub struct FileChange {
    pub file: FileId,
    /// The content, shared with the file system.
    pub text: Arc<Vec<u8>>,
}

/// The flake table as a change records it: untouched, cleared or set.
pub open spec fn flake_change_view(c: Option<Option<FlakeInfo>>) -> Option<Option<FlakeInfoView>> {
    match c {
        Some(info) => Some(flake_view(info)),
        None => None,
    }
}

/// What the analysis has not seen yet: new contents in the order in which
/// they were written, and the flake table if it was set.
#[derive(Debug)]
pub struct ChangeSet {
    pub file_changes: Vec<FileChange>,
    pub flake_info: Option<Option<FlakeInfo>>,
}

pub struct ChangeSetView {
    pub file_changes: Seq<(FileId, Seq<u8>)>,
    pub flake_info: Option<Option<FlakeInfoView>>,
}

/// The changes of a list as pairs of file and content.
pub open spec fn changes_view(changes: Seq<FileChange>) -> Seq<(FileId, Seq<u8>)> {
    Seq::new(changes.len(), |i: int| (changes[i].file, changes[i].text@))
}

impl View for ChangeSet {
    type V = ChangeSetView;

    open spec fn view(&self) -> ChangeSetView {
        ChangeSetView {
            file_changes: changes_view(self.file_changes@),
            flake_info: flake_change_view(self.flake_info),
        }
    }
}

impl ChangeSetView {
    /// The change set that holds nothing.
    pub open spec fn empty() -> ChangeSetView {
        ChangeSetView { file_changes: Seq::empty(), flake_info: None }
    }

    /// No later change of the set writes the file of the `k`-th again.
    pub open spec fn is_last_for_file(self, k: int) -> bool {
        forall|j: int|
            k < j < self.file_changes.len() ==> (#[trigger] self.file_changes[j]).0
                != self.file_changes[k].0
    }
}

/// The file system as contracts see it. The line index that is kept with
/// each file is left out: it is a function of the content, `line_ends_of`.
pub struct VfsView {
    /// The files; a file's identifier is its place in this list.
    pub files: Seq<FileView>,
    /// What was written since the changes were last taken.
    pub change: ChangeSetView,
    /// The flake table.
    pub flake_info: Option<FlakeInfoView>,
}

impl VfsView {
    /// Every file has a content of admissible length and the URI of its
    /// path, no two files share a path, and the pending changes speak of
    /// files that exist.
    pub open spec fn wf(self) -> bool {
        &&& self.files.len() <= u32::MAX
        &&& forall|i: int|
            0 <= i < self.files.len() ==> (#[trigger] self.files[i]).content.len() <= MAX_FILE_LEN
                && file_path_uri(self.files[i].path) == Some(self.files[i].uri)
        &&& forall|i: int, j: int|
            0 <= i < j < self.files.len() ==> (#[trigger] self.files[i]).path != (
            #[trigger] self.files[j]).path
        &&& forall|k: int|
            0 <= k < self.change.file_changes.len() ==> self.has_file(
                (#[trigger] self.change.file_changes[k]).0,
            )
        &&& forall|k: int|
            0 <= k < self.change.file_changes.len() && #[trigger] self.change.is_last_for_file(k)
                ==> self.files[self.change.file_changes[k].0.0 as int].content
                == self.change.file_changes[k].1
    }

    pub open spec fn has_file(self, file: FileId) -> bool {
        file.0 < self.files.len()
    }

    pub open spec fn knows_path(self, path: Seq<char>) -> bool {
        exists|i: int| 0 <= i < self.files.len() && (#[trigger] self.files[i]).path == path
    }

    /// The file that is held under `path`.
    pub open spec fn file_of_path(self, path: Seq<char>) -> FileId
        recommends
            self.knows_path(path),
    {
        FileId(
            (choose|i: int| 0 <= i < self.files.len() && (#[trigger] self.files[i]).path == path) as u32,
        )
    }

    /// The file system after `content` was written to `file`.
    pub open spec fn with_content(self, file: FileId, content: Seq<u8>) -> VfsView
        recommends
            self.has_file(file),
    {
        VfsView {
            files: self.files.update(
                file.0 as int,
                FileView { content, ..self.files[file.0 as int] },
            ),
            change: ChangeSetView {
                file_changes: self.change.file_changes.push((file, content)),
                ..self.change
            },
            ..self
        }
    }

    /// The file system after a new file was added.
    pub open spec fn with_file(self, path: Seq<char>, uri: Seq<char>, content: Seq<u8>) -> VfsView {
        VfsView {
            files: self.files.push(FileView { path, uri, content }),
            change: ChangeSetView {
                file_changes: self.change.file_changes.push(
                    (FileId(self.files.len() as u32), content),
                ),
                ..self.change
            },
            ..self
        }
    }

    /// What writing `content` under `path` gives: the file and the new
    /// file system, or the reason why nothing was written.
    pub open spec fn set_path(self, path: Seq<char>, content: Seq<u8>) -> Result<
        (FileId, VfsView),
        VfsError,
    > {
        if content.len() > MAX_FILE_LEN {
            Err(VfsError::FileTooLarge)
        } else if self.knows_path(path) {
            Ok((self.file_of_path(path), self.with_content(self.file_of_path(path), content)))
        } else if file_path_uri(path) is None {
            Err(VfsError::InvalidPath)
        } else if self.files.len() >= u32::MAX {
            Err(VfsError::TooManyFiles)
        } else {
            Ok(
                (
                    FileId(self.files.len() as u32),
                    self.with_file(path, file_path_uri(path)->0, content),
                ),
            )
        }
    }

    /// What writing `content` under `uri` gives.
    pub open spec fn set_uri(self, uri: Seq<char>, content: Seq<u8>) -> Result<
        (FileId, VfsView),
        VfsError,
    > {
        match uri_file_path(uri) {
            Some(path) => self.set_path(path, content),
            None => Err(VfsError::NonFileUri),
        }
    }

    /// The file that `uri` names, or why there is none.
    pub open spec fn file_of_uri(self, uri: Seq<char>) -> Result<FileId, VfsError> {
        match uri_file_path(uri) {
            Some(path) => if self.knows_path(path) {
                Ok(self.file_of_path(path))
            } else {
                Err(VfsError::NotFound)
            },
            None => Err(VfsError::NonFileUri),
        }
    }
}

impl VfsView {
    /// A path names one file at most.
    pub proof fn lemma_one_file_per_path(self, i: int, j: int)
        requires
            self.wf(),
            0 <= i < self.files.len(),
            0 <= j < self.files.len(),
            self.files[i].path == self.files[j].path,
        ensures
            i == j,
    {
        if i < j {
            assert(self.files[i].path != self.files[j].path);
        } else if j < i {
            assert(self.files[j].path != self.files[i].path);
        }
    }

    /// Writing to a file keeps the file system valid.
    pub proof fn lemma_with_content_wf(self, file: FileId, content: Seq<u8>)
        requires
            self.wf(),
            self.has_file(file),
            content.len() <= MAX_FILE_LEN,
        ensures
            self.with_content(file, content).wf(),
    {
        let new = self.with_content(file, content);
        let n = self.change.file_changes.len() as int;
        assert forall|i: int, j: int| 0 <= i < j < new.files.len() implies (
        #[trigger] new.files[i]).path != (#[trigger] new.files[j]).path by {
            assert(new.files[i].path == self.files[i].path);
            assert(new.files[j].path == self.files[j].path);
        }
        assert forall|i: int| 0 <= i < new.files.len() implies (
        #[trigger] new.files[i]).content.len() <= MAX_FILE_LEN && file_path_uri(new.files[i].path)
            == Some(new.files[i].uri) by {
            assert(new.files[i].path == self.files[i].path);
        }
        assert forall|k: int| 0 <= k < new.change.file_changes.len() implies new.has_file(
            (#[trigger] new.change.file_changes[k]).0,
        ) by {
            if k < n {
                assert(new.change.file_changes[k] == self.change.file_changes[k]);
            }
        }
        assert forall|k: int|
            0 <= k < new.change.file_changes.len() && #[trigger] new.change.is_last_for_file(
                k,
            ) implies new.files[new.change.file_changes[k].0.0 as int].content
            == new.change.file_changes[k].1 by {
            if k < n {
                assert(new.change.file_changes[n].0 != new.change.file_changes[k].0);
                assert(self.change.is_last_for_file(k)) by {
                    assert forall|j: int| k < j < n implies (#[trigger] self.change.file_changes[j]).0
                        != self.change.file_changes[k].0 by {
                        assert(new.change.file_changes[j] == self.change.file_changes[j]);
                    }
                }
            }
        }
    }

    /// Adding a file under a new path keeps the file system valid.
    pub proof fn lemma_with_file_wf(self, path: Seq<char>, uri: Seq<char>, content: Seq<u8>)
        requires
            self.wf(),
            !self.knows_path(path),
            file_path_uri(path) == Some(uri),
            content.len() <= MAX_FILE_LEN,
            self.files.len() < u32::MAX,
        ensures
            self.with_file(path, uri, content).wf(),
    {
        let new = self.with_file(path, uri, content);
        let n = self.change.file_changes.len() as int;
        assert forall|i: int, j: int| 0 <= i < j < new.files.len() implies (
        #[trigger] new.files[i]).path != (#[trigger] new.files[j]).path by {
            assert(new.files[i] == self.files[i]);
            if j < self.files.len() {
                assert(new.files[j] == self.files[j]);
            }
        }
        assert forall|i: int| 0 <= i < new.files.len() implies (
        #[trigger] new.files[i]).content.len() <= MAX_FILE_LEN && file_path_uri(new.files[i].path)
            == Some(new.files[i].uri) by {
            if i < self.files.len() {
                assert(new.files[i] == self.files[i]);
            }
        }
        assert forall|k: int| 0 <= k < new.change.file_changes.len() implies new.has_file(
            (#[trigger] new.change.file_changes[k]).0,
        ) by {
            if k < n {
                assert(new.change.file_changes[k] == self.change.file_changes[k]);
            }
        }
        assert forall|k: int|
            0 <= k < new.change.file_changes.len() && #[trigger] new.change.is_last_for_file(
                k,
            ) implies new.files[new.change.file_changes[k].0.0 as int].content
            == new.change.file_changes[k].1 by {
            if k < n {
                assert(new.change.file_changes[k] == self.change.file_changes[k]);
                assert(self.has_file(self.change.file_changes[k].0));
                assert(self.change.is_last_for_file(k)) by {
                    assert forall|j: int| k < j < n implies (#[trigger] self.change.file_changes[j]).0
                        != self.change.file_changes[k].0 by {
                        assert(new.change.file_changes[j] == self.change.file_changes[j]);
                    }
                }
            }
        }
    }

    /// The file system without pending changes.
    pub open spec fn taken(self) -> VfsView {
        VfsView { change: ChangeSetView::empty(), ..self }
    }

    /// The file system after the flake table was set.
    pub open spec fn with_flake_info(self, info: Option<FlakeInfoView>) -> VfsView {
        VfsView {
            flake_info: info,
            change: ChangeSetView { flake_info: Some(info), ..self.change },
            ..self
        }
    }

    /// Setting the flake table keeps the file system valid.
    pub proof fn lemma_with_flake_info_wf(self, info: Option<FlakeInfoView>)
        requires
            self.wf(),
        ensures
            self.with_flake_info(info).wf(),
    {
        let new = self.with_flake_info(info);
        assert forall|k: int|
            0 <= k < new.change.file_changes.len() && #[trigger] new.change.is_last_for_file(
                k,
            ) implies new.files[new.change.file_changes[k].0.0 as int].content
            == new.change.file_changes[k].1 by {
            assert(self.change.is_last_for_file(k));
        }
    }
}

/// The content after the bytes from `start` up to `end` gave way to `text`.
pub open spec fn spliced(content: Seq<u8>, start: int, end: int, text: Seq<u8>) -> Seq<u8>
    recommends
        0 <= start <= end <= content.len(),
{
    content.subrange(0, start) + text + content.subrange(end, content.len() as int)
}

/// What an edit makes of `content`: with a span the bytes in it give way to
/// `text`, without one `text` is the whole new content.
pub open spec fn edited(content: Seq<u8>, span: Option<(usize, usize)>, text: Seq<u8>) -> Result<
    Seq<u8>,
    VfsError,
> {
    match span {
        None => if text.len() > MAX_FILE_LEN {
            Err(VfsError::FileTooLarge)
        } else {
            Ok(text)
        },
        Some((start, end)) => if !(start <= end && end <= content.len()) {
            Err(VfsError::InvalidRange)
        } else if content.len() - (end - start) + text.len() > MAX_FILE_LEN {
            Err(VfsError::FileTooLarge)
        } else {
            Ok(spliced(content, start as int, end as int, text))
        },
    }
}

/// Applies an edit to a content.
pub fn edit_content(content: &Vec<u8>, span: Option<(usize, usize)>, text: &Vec<u8>) -> (r: Result<
    Vec<u8>,
    VfsError,
>)
    ensures
        match edited(content@, span, text@) {
            Ok(new) => r is Ok && r->Ok_0@ == new,
            Err(e) => r == Err::<Vec<u8>, VfsError>(e),
        },
{
    match span {
        None => {
            if text.len() > MAX_FILE_LEN {
                return Err(VfsError::FileTooLarge);
            }
            Ok(copy_bytes(text))
        },
        Some((start, end)) => {
            if !(start <= end && end <= content.len()) {
                return Err(VfsError::InvalidRange);
            }
            let kept: usize = content.len() - (end - start);
            if text.len() > MAX_FILE_LEN || kept > MAX_FILE_LEN - text.len() {
                return Err(VfsError::FileTooLarge);
            }
            let mut new: Vec<u8> = Vec::new();
            let mut i: usize = 0;
            while i < start
                invariant
                    i <= start <= content.len(),
                    new@ == content@.subrange(0, i as int),
                decreases start - i,
            {
                new.push(content[i]);
                assert(content@.subrange(0, i + 1) =~= content@.subrange(0, i as int).push(
                    content@[i as int],
                ));
                i += 1;
            }
            let mut j: usize = 0;
            while j < text.len()
                invariant
                    j <= text.len(),
                    new@ == content@.subrange(0, start as int) + text@.subrange(0, j as int),
                decreases text.len() - j,
            {
                new.push(text[j]);
                assert(text@.subrange(0, j + 1) =~= text@.subrange(0, j as int).push(text@[j as int]));
                assert(new@ =~= content@.subrange(0, start as int) + text@.subrange(0, j + 1));
                j += 1;
            }
            assert(text@.subrange(0, text.len() as int) =~= text@);
            let mut k: usize = end;
            while k < content.len()
                invariant
                    end <= k <= content.len(),
                    new@ == content@.subrange(0, start as int) + text@ + content@.subrange(
                        end as int,
                        k as int,
                    ),
                decreases content.len() - k,
            {
                new.push(content[k]);
                assert(content@.subrange(end as int, k + 1) =~= content@.subrange(
                    end as int,
                    k as int,
                ).push(content@[k as int]));
                assert(new@ =~= content@.subrange(0, start as int) + text@ + content@.subrange(
                    end as int,
                    k + 1,
                ));
                k += 1;
            }
            Ok(new)
        },
    }
}

/// A file as the file system holds it.
#[derive(Debug)]
struct VfsFile {
    path: String,
    uri: String,
    content: Arc<Vec<u8>>,
    /// Where the lines of `content` end.
    newlines: Arc<Vec<usize>>,
}

/// The file system.
#[derive(Debug)]
pub struct Vfs {
    files: Vec<VfsFile>,
    changes: Vec<FileChange>,
    flake_info: Option<FlakeInfo>,
    flake_change: Option<Option<FlakeInfo>>,
}

impl View for Vfs {
    type V = VfsView;

    closed spec fn view(&self) -> VfsView {
        VfsView {
            files: Seq::new(
                self.files@.len(),
                |i: int|
                    FileView {
                        path: self.files@[i].path@,
                        uri: self.files@[i].uri@,
                        content: self.files@[i].content@,
                    },
            ),
            change: ChangeSetView {
                file_changes: changes_view(self.changes@),
                flake_info: flake_change_view(self.flake_change),
            },
            flake_info: flake_view(self.flake_info),
        }
    }
}

impl Vfs {
    /// Each file's line index is that of its content.
    pub closed spec fn indexed(&self) -> bool {
        forall|i: int|
            0 <= i < self.files@.len() ==> is_line_index(
                (#[trigger] self.files@[i]).newlines@,
                self.files@[i].content@,
            )
    }

    /// The file system is valid.
    pub open spec fn wf(&self) -> bool {
        self.indexed() && self@.wf()
    }

    /// A file system without files.
    pub fn new() -> (vfs: Vfs)
        ensures
            vfs.wf(),
            vfs@.files.len() == 0,
            vfs@.change == ChangeSetView::empty(),
            vfs@.flake_info is None,
    {
        let vfs = Vfs { files: Vec::new(), changes: Vec::new(), flake_info: None, flake_change: None };
        assert(vfs@.change.file_changes =~= Seq::empty());
        vfs
    }

    /// The file held under a path.
    pub fn file_for_path(&self, path: &str) -> (r: Result<FileId, VfsError>)
        requires
            self.wf(),
        ensures
            r == (if self@.knows_path(path@) {
                Ok::<FileId, VfsError>(self@.file_of_path(path@))
            } else {
                Err(VfsError::NotFound)
            }),
    {
        let wanted = path.to_owned();
        let mut i: usize = 0;
        while i < self.files.len()
            invariant
                self.wf(),
                wanted@ == path@,
                i <= self.files.len(),
                forall|k: int| 0 <= k < i ==> (#[trigger] self@.files[k]).path != path@,
            decreases self.files.len() - i,
        {
            if self.files[i].path == wanted {
                proof {
                    assert(self@.files[i as int].path == path@);
                    let c = choose|c: int|
                        0 <= c < self@.files.len() && (#[trigger] self@.files[c]).path == path@;
                    self@.lemma_one_file_per_path(c, i as int);
                }
                return Ok(FileId(i as u32));
            }
            i += 1;
        }
        Err(VfsError::NotFound)
    }

    /// The file that a URI names.
    pub fn file_for_uri(&self, uri: &str) -> (r: Result<FileId, VfsError>)
        requires
            self.wf(),
        ensures
            r == self@.file_of_uri(uri@),
    {
        match uri_to_path(uri) {
            Some(path) => self.file_for_path(path.as_str()),
            None => Err(VfsError::NonFileUri),
        }
    }

    /// The URI of a file.
    pub fn uri_for_file(&self, file: FileId) -> (uri: String)
        requires
            self.wf(),
            self@.has_file(file),
        ensures
            uri@ == self@.files[file.0 as int].uri,
    {
        self.files[file.0 as usize].uri.clone()
    }

    /// The content of a file.
    pub fn content_for_file(&self, file: FileId) -> (content: &Vec<u8>)
        requires
            self.wf(),
            self@.has_file(file),
        ensures
            content@ == self@.files[file.0 as int].content,
    {
        &self.files[file.0 as usize].content
    }

    /// How many files there are.
    pub fn file_count(&self) -> (n: usize)
        ensures
            n == self@.files.len(),
    {
        self.files.len()
    }
}

impl Vfs {
    /// Writes `text` to an existing file and records the change.
    fn replace_content(&mut self, file: FileId, text: Vec<u8>)
        requires
            old(self).wf(),
            old(self)@.has_file(file),
            text.len() <= MAX_FILE_LEN,
        ensures
            final(self).wf(),
            final(self)@ == old(self)@.with_content(file, text@),
    {
        let newlines = Arc::new(line_index(&text));
        let content = Arc::new(text);
        let ghost before = *self;
        let slot = &mut self.files[file.0 as usize];
        slot.content = share(&content);
        slot.newlines = newlines;
        self.changes.push(FileChange { file, text: content });
        proof {
            let want = before@.with_content(file, text@);
            assert(self@.files =~= want.files);
            assert(self@.change.file_changes =~= want.change.file_changes);
            assert(self@ == want);
            before@.lemma_with_content_wf(file, text@);
            assert forall|i: int| 0 <= i < self.files@.len() implies is_line_index(
                (#[trigger] self.files@[i]).newlines@,
                self.files@[i].content@,
            ) by {
                if i != file.0 as int {
                    assert(self.files@[i] == before.files@[i]);
                }
            }
        }
    }
}

impl Vfs {
    /// Writes `text` under `path`, as a new file where the path is new, and
    /// records the change.
    pub fn set_path_content(&mut self, path: String, text: Vec<u8>) -> (r: Result<FileId, VfsError>)
        requires
            old(self).wf(),
        ensures
            final(self).wf(),
            match old(self)@.set_path(path@, text@) {
                Ok((file, vfs)) => r == Ok::<FileId, VfsError>(file) && final(self)@ == vfs,
                Err(e) => r == Err::<FileId, VfsError>(e) && final(self)@ == old(self)@,
            },
    {
        if text.len() > MAX_FILE_LEN {
            return Err(VfsError::FileTooLarge);
        }
        match self.file_for_path(path.as_str()) {
            Ok(file) => {
                self.replace_content(file, text);
                Ok(file)
            },
            Err(_) => {
                let uri = match path_to_uri(path.as_str()) {
                    Some(uri) => uri,
                    None => {
                        return Err(VfsError::InvalidPath);
                    },
                };
                if self.files.len() >= 0xffff_ffff {
                    return Err(VfsError::TooManyFiles);
                }
                let file = FileId(self.files.len() as u32);
                let newlines = Arc::new(line_index(&text));
                let content = Arc::new(text);
                let ghost before = *self;
                self.files.push(VfsFile { path, uri, content: share(&content), newlines });
                self.changes.push(FileChange { file, text: content });
                proof {
                    let want = before@.with_file(path@, uri@, text@);
                    assert(self@.files =~= want.files);
                    assert(self@.change.file_changes =~= want.change.file_changes);
                    assert(self@ == want);
                    before@.lemma_with_file_wf(path@, uri@, text@);
                    assert forall|i: int| 0 <= i < self.files@.len() implies is_line_index(
                        (#[trigger] self.files@[i]).newlines@,
                        self.files@[i].content@,
                    ) by {
                        if i < before.files@.len() {
                            assert(self.files@[i] == before.files@[i]);
                        }
                    }
                }
                Ok(file)
            },
        }
    }

    /// Writes `text` to the file that `uri` names, as a new file where the
    /// URI is new, and records the change.
    pub fn set_uri_content(&mut self, uri: &str, text: Vec<u8>) -> (r: Result<FileId, VfsError>)
        requires
            old(self).wf(),
        ensures
            final(self).wf(),
            match old(self)@.set_uri(uri@, text@) {
                Ok((file, vfs)) => r == Ok::<FileId, VfsError>(file) && final(self)@ == vfs,
                Err(e) => r == Err::<FileId, VfsError>(e) && final(self)@ == old(self)@,
            },
    {
        match uri_to_path(uri) {
            Some(path) => self.set_path_content(path, text),
            None => Err(VfsError::NonFileUri),
        }
    }

    /// Applies an edit to a file and records the new content. Without a
    /// span `text` replaces the content; with one it replaces the bytes of
    /// the span. Nothing changes where the edit is refused.
    pub fn change_file_content(
        &mut self,
        file: FileId,
        span: Option<(usize, usize)>,
        text: &Vec<u8>,
    ) -> (r: Result<(), VfsError>)
        requires
            old(self).wf(),
        ensures
            final(self).wf(),
            !old(self)@.has_file(file) ==> r == Err::<(), VfsError>(VfsError::InvalidFile)
                && final(self)@ == old(self)@,
            old(self)@.has_file(file) ==> match edited(
                old(self)@.files[file.0 as int].content,
                span,
                text@,
            ) {
                Ok(new) => r is Ok && final(self)@ == old(self)@.with_content(file, new),
                Err(e) => r == Err::<(), VfsError>(e) && final(self)@ == old(self)@,
            },
    {
        if file.0 as usize >= self.files.len() {
            return Err(VfsError::InvalidFile);
        }
        match edit_content(&self.files[file.0 as usize].content, span, text) {
            Ok(new) => {
                self.replace_content(file, new);
                Ok(())
            },
            Err(e) => Err(e),
        }
    }

    /// Hands out the changes that wait for the analysis and forgets them.
    pub fn take_change(&mut self) -> (change: ChangeSet)
        requires
            old(self).wf(),
        ensures
            final(self).wf(),
            change@ == old(self)@.change,
            final(self)@ == old(self)@.taken(),
    {
        let mut file_changes: Vec<FileChange> = Vec::new();
        let mut flake_info: Option<Option<FlakeInfo>> = None;
        std::mem::swap(&mut self.changes, &mut file_changes);
        std::mem::swap(&mut self.flake_change, &mut flake_info);
        proof {
            assert(self@.change.file_changes =~= Seq::empty());
            assert(self@.files =~= old(self)@.files);
        }
        ChangeSet { file_changes, flake_info }
    }

    /// Sets or clears the flake table and records that for the analysis.
    pub fn set_flake_info(&mut self, info: Option<FlakeInfo>)
        requires
            old(self).wf(),
        ensures
            final(self).wf(),
            final(self)@ == old(self)@.with_flake_info(flake_view(info)),
    {
        let copy = match &info {
            Some(i) => Some(i.duplicate()),
            None => None,
        };
        self.flake_info = info;
        self.flake_change = Some(copy);
        proof {
            assert(self@.files =~= old(self)@.files);
            old(self)@.lemma_with_flake_info_wf(flake_view(info));
        }
    }

    /// The flake table.
    pub fn flake_info(&self) -> (info: &Option<FlakeInfo>)
        ensures
            flake_view(*info) == self@.flake_info,
    {
        &self.flake_info
    }
}

/// `Arc::clone`: one more handle on the same value.
#[verifier::external_body]
pub(crate) fn share<T>(shared: &Arc<T>) -> (handle: Arc<T>)
    ensures
        handle == *shared,
{
    Arc::clone(shared)
}

/// A copy of the bytes.
pub fn copy_bytes(bytes: &Vec<u8>) -> (copy: Vec<u8>)
    ensures
        copy@ == bytes@,
{
    let mut copy: Vec<u8> = Vec::new();
    let mut i: usize = 0;
    while i < bytes.len()
        invariant
            i <= bytes.len(),
            copy@ == bytes@.subrange(0, i as int),
        decreases bytes.len() - i,
    {
        copy.push(bytes[i]);
        assert(bytes@.subrange(0, i + 1) =~= bytes@.subrange(0, i as int).push(bytes@[i as int]));
        i += 1;
    }
    assert(bytes@.subrange(0, bytes.len() as int) =~= bytes@);
    copy
}

/// A place in a text, as the protocol gives it: a line, counted from zero,
/// and a column in it.
#[verifier::external_type_specification]
pub struct ExPosition(Position);

/// Two places in a text.
#[verifier::external_type_specification]
pub struct ExRange(Range);

/// Where the lines of `content` end.
pub open spec fn line_ends_of(content: Seq<u8>) -> Seq<usize> {
    choose|index: Seq<usize>| is_line_index(index, content)
}

/// The offset of a place in `content`, its column counted in bytes as in
/// the position encoding `utf-8`: none where the content has no such line
/// or the line is shorter.
pub open spec fn offset_in(content: Seq<u8>, at: Position) -> Option<usize> {
    let ends = line_ends_of(content);
    if at.line > ends.len() {
        None
    } else {
        let start = if at.line == 0 {
            0
        } else {
            ends[at.line - 1] + 1
        };
        let end = if at.line < ends.len() {
            ends[at.line as int] as int
        } else {
            content.len() as int
        };
        if start + at.character <= end {
            Some((start + at.character) as usize)
        } else {
            None
        }
    }
}

/// The byte span of a range in `content`, where both of its places lie in it.
pub open spec fn span_in(content: Seq<u8>, range: Range) -> Option<(usize, usize)> {
    match (offset_in(content, range.start), offset_in(content, range.end)) {
        (Some(s), Some(e)) => Some((s, e)),
        _ => None,
    }
}

impl Vfs {
    /// The offset of a place in a file. The column counts bytes: the
    /// server has to agree with the client on the position encoding `utf-8`.
    pub fn offset_at(&self, file: FileId, at: Position) -> (r: Option<usize>)
        requires
            self.wf(),
            self@.has_file(file),
        ensures
            r == offset_in(self@.files[file.0 as int].content, at),
            r is Some ==> r->0 <= self@.files[file.0 as int].content.len(),
    {
        let entry = &self.files[file.0 as usize];
        proof {
            assert(is_line_index(
                (#[trigger] self.files@[file.0 as int]).newlines@,
                self.files@[file.0 as int].content@,
            ));
            lemma_line_index_unique(entry.newlines@, line_ends_of(entry.content@), entry.content@);
            assert(self@.files[file.0 as int].content == entry.content@);
        }
        let lines = entry.newlines.len();
        let line = at.line as usize;
        if line > lines {
            return None;
        }
        let start: usize = if line == 0 {
            0
        } else {
            entry.newlines[line - 1] + 1
        };
        let end: usize = if line < lines {
            entry.newlines[line]
        } else {
            entry.content.len()
        };
        if start > end {
            return None;
        }
        if at.character as usize <= end - start {
            Some(start + at.character as usize)
        } else {
            None
        }
    }

    /// The byte span of a range in a file. The columns of the range count
    /// bytes: the server has to agree with the client on the position
    /// encoding `utf-8`.
    pub fn span_at(&self, file: FileId, range: Range) -> (r: Option<(usize, usize)>)
        requires
            self.wf(),
            self@.has_file(file),
        ensures
            r == span_in(self@.files[file.0 as int].content, range),
    {
        match self.offset_at(file, range.start) {
            Some(s) => match self.offset_at(file, range.end) {
                Some(e) => Some((s, e)),
                None => None,
            },
            None => None,
        }
    }

    /// A copy of the file system. The contents are shared, not copied.
    pub fn duplicate(&self) -> (copy: Vfs)
        requires
            self.wf(),
        ensures
            copy.wf(),
            copy@ == self@,
    {
        let mut files: Vec<VfsFile> = Vec::new();
        let mut i: usize = 0;
        while i < self.files.len()
            invariant
                i <= self.files.len(),
                files.len() == i,
                forall|k: int|
                    0 <= k < i ==> (#[trigger] files@[k]).path@ == self.files@[k].path@ && files@[k].uri@
                        == self.files@[k].uri@ && files@[k].content@ == self.files@[k].content@
                        && files@[k].newlines@ == self.files@[k].newlines@,
            decreases self.files.len() - i,
        {
            let entry = &self.files[i];
            files.push(
                VfsFile {
                    path: entry.path.clone(),
                    uri: entry.uri.clone(),
                    content: share(&entry.content),
                    newlines: share(&entry.newlines),
                },
            );
            i += 1;
        }
        let mut changes: Vec<FileChange> = Vec::new();
        let mut j: usize = 0;
        while j < self.changes.len()
            invariant
                j <= self.changes.len(),
                changes.len() == j,
                forall|k: int|
                    0 <= k < j ==> (#[trigger] changes@[k]).file == self.changes@[k].file && changes@[k].text@
                        == self.changes@[k].text@,
            decreases self.changes.len() - j,
        {
            changes.push(
                FileChange { file: self.changes[j].file, text: share(&self.changes[j].text) },
            );
            j += 1;
        }
        let flake_info = match &self.flake_info {
            Some(info) => Some(info.duplicate()),
            None => None,
        };
        let flake_change = match &self.flake_change {
            Some(Some(info)) => Some(Some(info.duplicate())),
            Some(None) => Some(None),
            None => None,
        };
        let copy = Vfs { files, changes, flake_info, flake_change };
        proof {
            assert(copy@.files =~= self@.files);
            assert(copy@.change.file_changes =~= self@.change.file_changes);
            assert(copy@ == self@);
            assert forall|k: int| 0 <= k < copy.files@.len() implies is_line_index(
                (#[trigger] copy.files@[k]).newlines@,
                copy.files@[k].content@,
            ) by {
                assert(is_line_index(
                    (#[trigger] self.files@[k]).newlines@,
                    self.files@[k].content@,
                ));
            }
        }
        copy
    }
}

} // verus!
