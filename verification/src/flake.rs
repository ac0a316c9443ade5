//! Loading the flake of the workspace: what was found on disk decides
//! whether the workspace is a flake and which of its inputs can be used.

use crate::event::{LoadFlakeResult, LoadFlakeView};
use crate::vfs::{
    all_differ, names_distinct, pairs_view, FileId, FlakeInfo, FlakeInfoView, Vfs, VfsError,
    VfsView,
};
use vstd::prelude::*;
use vstd::string::*;

verus! {

/// The file that makes a directory a flake.
pub open spec fn flake_file_name() -> Seq<char> {
    "flake.nix"@
}

/// The file that pins the inputs of a flake.
pub open spec fn flake_lock_name() -> Seq<char> {
    "flake.lock"@
}

/// The path of `name` under the directory `root`.
pub uninterp spec fn path_joined(root: Seq<char>, name: Seq<char>) -> Seq<char>;

/// A path as it is written in a message: in quotes, with escapes.
pub uninterp spec fn path_quoted(path: Seq<char>) -> Seq<char>;

/// `std::path::Path::join` on two paths given as text.
#[verifier::external_body]
pub(crate) fn join_path(root: &str, name: &str) -> (path: String)
    ensures
        path@ == path_joined(root@, name@),
{
    std::path::Path::new(root).join(name).to_string_lossy().into_owned()
}

/// The `Debug` text of a `std::path::Path`.
#[verifier::external_body]
pub(crate) fn quote_path(path: &str) -> (quoted: String)
    ensures
        quoted@ == path_quoted(path@),
{
    format!("{:?}", std::path::Path::new(path))
}

/// An input of a flake as the lock file pins it.
#[derive(Debug)]
pub struct ResolvedInput {
    pub name: String,
    pub store_path: String,
    /// Whether the store path is there on disk.
    pub exists: bool,
}

/// No name stands twice among the inputs.
pub open spec fn input_names_distinct(inputs: Seq<ResolvedInput>) -> bool {
    forall|i: int, j: int|
        0 <= i < j < inputs.len() ==> (#[trigger] inputs[i]).name@ != (#[trigger] inputs[j]).name@
}

/// The inputs that a lock file pins, each under a name of its own.
#[derive(Debug)]
pub struct ResolvedInputs {
    list: Vec<ResolvedInput>,
}

impl View for ResolvedInputs {
    type V = Seq<ResolvedInput>;

    closed spec fn view(&self) -> Seq<ResolvedInput> {
        self.list@
    }
}

impl ResolvedInputs {
    /// No name stands twice among the inputs.
    #[verifier::type_invariant]
    closed spec fn valid(&self) -> bool {
        input_names_distinct(self@)
    }

    /// The inputs as a list; none where a name stands twice.
    pub fn new(list: Vec<ResolvedInput>) -> (r: Option<ResolvedInputs>)
        ensures
            r is Some == input_names_distinct(list@),
            r is Some ==> r->0@ == list@,
    {
        let mut names: Vec<String> = Vec::new();
        let mut i: usize = 0;
        while i < list.len()
            invariant
                i <= list.len(),
                names.len() == i,
                forall|k: int| 0 <= k < i ==> (#[trigger] names@[k])@ == list@[k].name@,
            decreases list.len() - i,
        {
            names.push(list[i].name.clone());
            i += 1;
        }
        let distinct = all_differ(&names);
        proof {
            if distinct {
                assert forall|a: int, b: int| 0 <= a < b < list@.len() implies (
                #[trigger] list@[a]).name@ != (#[trigger] list@[b]).name@ by {
                    assert(names@[a]@ != names@[b]@);
                }
            } else {
                let (a, b) = choose|a: int, b: int|
                    0 <= a < b < names@.len() && (#[trigger] names@[a])@ == (#[trigger] names@[b])@;
                assert(list@[a].name@ == list@[b].name@);
            }
        }
        if distinct {
            Some(ResolvedInputs { list })
        } else {
            None
        }
    }

    /// How many inputs there are.
    pub fn len(&self) -> (n: usize)
        ensures
            n == self@.len(),
            input_names_distinct(self@),
    {
        proof {
            use_type_invariant(self);
        }
        self.list.len()
    }
}

/// Every input that is kept is one of the inputs.
pub proof fn lemma_kept_are_inputs(inputs: Seq<ResolvedInput>, k: int)
    requires
        0 <= k < kept_inputs(inputs).len(),
    ensures
        exists|i: int| 0 <= i < inputs.len() && (#[trigger] inputs[i]).name@ == kept_inputs(inputs)[k].0,
    decreases inputs.len(),
{
    if inputs.len() > 0 {
        let init = inputs.drop_last();
        if k < kept_inputs(init).len() {
            lemma_kept_are_inputs(init, k);
            let i = choose|i: int|
                0 <= i < init.len() && (#[trigger] init[i]).name@ == kept_inputs(init)[k].0;
            assert(inputs[i].name@ == kept_inputs(inputs)[k].0);
        } else {
            assert(inputs[inputs.len() - 1].name@ == kept_inputs(inputs)[k].0);
        }
    }
}

/// Among inputs with names of their own, those that are kept have names
/// of their own.
pub proof fn lemma_kept_distinct(inputs: Seq<ResolvedInput>)
    requires
        input_names_distinct(inputs),
    ensures
        names_distinct(kept_inputs(inputs)),
    decreases inputs.len(),
{
    if inputs.len() > 0 {
        let init = inputs.drop_last();
        assert(input_names_distinct(init)) by {
            assert forall|i: int, j: int| 0 <= i < j < init.len() implies (#[trigger] init[i]).name@
                != (#[trigger] init[j]).name@ by {
                assert(inputs[i].name@ != inputs[j].name@);
            }
        }
        lemma_kept_distinct(init);
        let kept = kept_inputs(inputs);
        assert forall|a: int, b: int| 0 <= a < b < kept.len() implies (#[trigger] kept[a]).0 != (
        #[trigger] kept[b]).0 by {
            if b < kept_inputs(init).len() {
                assert(kept[a] == kept_inputs(init)[a]);
                assert(kept[b] == kept_inputs(init)[b]);
            } else {
                lemma_kept_are_inputs(init, a);
                let i = choose|i: int|
                    0 <= i < init.len() && (#[trigger] init[i]).name@ == kept_inputs(init)[a].0;
                assert(inputs[i].name@ != inputs[inputs.len() - 1].name@);
            }
        }
    }
}

/// What was found on disk, as far as the search had to go.
#[derive(Debug)]
pub enum FlakeProbe {
    /// There is no flake file.
    RootMissing,
    /// The flake file could not be read; holds the reason.
    RootUnreadable(String),
    /// There is a flake file and no lock file.
    LockMissing { flake_src: Vec<u8> },
    /// The lock file could not be read; holds the reason.
    LockUnreadable { flake_src: Vec<u8>, error: String },
    /// The inputs could not be resolved from the lock file; holds the reason.
    Unresolved { flake_src: Vec<u8>, error: String },
    /// The inputs that the lock file pins.
    Resolved { flake_src: Vec<u8>, inputs: ResolvedInputs },
}

impl FlakeProbe {
    /// The content of the flake file, where it was read.
    pub open spec fn flake_src(self) -> Option<Seq<u8>> {
        match self {
            FlakeProbe::RootMissing => None,
            FlakeProbe::RootUnreadable(_) => None,
            FlakeProbe::LockMissing { flake_src } => Some(flake_src@),
            FlakeProbe::LockUnreadable { flake_src, .. } => Some(flake_src@),
            FlakeProbe::Unresolved { flake_src, .. } => Some(flake_src@),
            FlakeProbe::Resolved { flake_src, .. } => Some(flake_src@),
        }
    }
}

/// Name and store path of the inputs that are there on disk, in their order.
pub open spec fn kept_inputs(inputs: Seq<ResolvedInput>) -> Seq<(Seq<char>, Seq<char>)>
    decreases inputs.len(),
{
    if inputs.len() == 0 {
        Seq::empty()
    } else if inputs.last().exists {
        kept_inputs(inputs.drop_last()).push((inputs.last().name@, inputs.last().store_path@))
    } else {
        kept_inputs(inputs.drop_last())
    }
}

/// Whether one of the inputs is not there on disk.
pub open spec fn any_missing(inputs: Seq<ResolvedInput>) -> bool {
    exists|i: int| 0 <= i < inputs.len() && !(#[trigger] inputs[i]).exists
}

/// The message of a failure with what it happened at put in front.
pub open spec fn with_context(context: Seq<char>, cause: Seq<char>) -> Seq<char> {
    context + ": "@ + cause
}

/// The file of the flake and the files after it was made sure of: a file
/// that is held under the path already is kept as it is, else the content
/// from disk is written under the path.
pub open spec fn flake_file_of(vfs: VfsView, path: Seq<char>, src: Seq<u8>) -> Result<
    (FileId, VfsView),
    VfsError,
> {
    if vfs.knows_path(path) {
        Ok((vfs.file_of_path(path), vfs))
    } else {
        vfs.set_path(path, src)
    }
}

/// What the lock file and its inputs say of a flake whose file is `file`.
pub open spec fn flake_found(file: FileId, lock_path: Seq<char>, probe: FlakeProbe) -> Result<
    LoadFlakeView,
    Seq<char>,
>
    recommends
        probe.flake_src() is Some,
{
    match probe {
        FlakeProbe::LockUnreadable { error, .. } => Err(
            with_context("Failed to read flake lock "@ + path_quoted(lock_path), error@),
        ),
        FlakeProbe::Unresolved { error, .. } => Err(
            with_context("Failed to resolve flake inputs from lock file"@, error@),
        ),
        FlakeProbe::Resolved { inputs, .. } => Ok(
            LoadFlakeView::IsFlake {
                flake_info: FlakeInfoView { flake_file: file, input_store_paths: kept_inputs(inputs@) },
                missing_inputs: any_missing(inputs@),
            },
        ),
        _ => Ok(
            LoadFlakeView::IsFlake {
                flake_info: FlakeInfoView { flake_file: file, input_store_paths: Seq::empty() },
                missing_inputs: false,
            },
        ),
    }
}

/// What loading the flake gives, and the files after it. Without a flake
/// file the workspace is no flake. A flake file that cannot be read, or
/// that the file system refuses, is a failure, as is a lock file that
/// cannot be read or resolved. Without a lock file the flake has no inputs.
pub open spec fn flake_loaded(
    vfs: VfsView,
    flake_path: Seq<char>,
    lock_path: Seq<char>,
    probe: FlakeProbe,
) -> (Result<LoadFlakeView, Seq<char>>, VfsView) {
    match probe {
        FlakeProbe::RootMissing => (Ok(LoadFlakeView::NotFlake), vfs),
        FlakeProbe::RootUnreadable(error) => (
            Err(with_context("Failed to read flake root "@ + path_quoted(flake_path), error@)),
            vfs,
        ),
        _ => match flake_file_of(vfs, flake_path, probe.flake_src()->0) {
            Err(e) => (Err(e.text()), vfs),
            Ok((file, after)) => (flake_found(file, lock_path, probe), after),
        },
    }
}

/// Puts what a failure happened at in front of its message.
fn add_context(context: String, cause: &String) -> (text: String)
    ensures
        text@ == with_context(context@, cause@),
{
    let mut text = context;
    text.append(": ");
    text.append(cause.as_str());
    text
}

/// Keeps the inputs that are there on disk, which have names of their
/// own, and says whether any is not.
pub fn select_inputs(inputs: &ResolvedInputs) -> (r: (Vec<(String, String)>, bool))
    ensures
        pairs_view(r.0@) == kept_inputs(inputs@),
        names_distinct(pairs_view(r.0@)),
        r.1 == any_missing(inputs@),
{
    proof {
        use_type_invariant(inputs);
        lemma_kept_distinct(inputs@);
    }
    let inputs = &inputs.list;
    let ghost all = inputs@;
    let mut kept: Vec<(String, String)> = Vec::new();
    let mut missing = false;
    let mut i: usize = 0;
    while i < inputs.len()
        invariant
            i <= inputs.len(),
            inputs@ == all,
            pairs_view(kept@) == kept_inputs(all.take(i as int)),
            missing == any_missing(all.take(i as int)),
        decreases inputs.len() - i,
    {
        proof {
            assert(all.take(i + 1).drop_last() =~= all.take(i as int));
            assert(all.take(i + 1).last() == all[i as int]);
        }
        let ghost before = pairs_view(kept@);
        if inputs[i].exists {
            let name = inputs[i].name.clone();
            let path = inputs[i].store_path.clone();
            kept.push((name, path));
            assert(pairs_view(kept@) =~= before.push(
                (all[i as int].name@, all[i as int].store_path@),
            ));
            assert(any_missing(all.take(i + 1)) == any_missing(all.take(i as int))) by {
                if any_missing(all.take(i + 1)) {
                    let w = choose|w: int|
                        0 <= w < all.take(i + 1).len() && !(#[trigger] all.take(i + 1)[w]).exists;
                    assert(!all.take(i as int)[w].exists);
                }
                if any_missing(all.take(i as int)) {
                    let w = choose|w: int|
                        0 <= w < all.take(i as int).len() && !(#[trigger] all.take(
                            i as int,
                        )[w]).exists;
                    assert(!all.take(i + 1)[w].exists);
                }
            }
        } else {
            missing = true;
            assert(!all.take(i + 1)[i as int].exists);
        }
        i += 1;
    }
    assert(all.take(all.len() as int) =~= all);
    (kept, missing)
}

/// Decides from what was found on disk whether the workspace is a flake,
/// makes sure that the file system holds the flake file, and keeps the
/// inputs that are there on disk.
pub fn load_flake_result(
    vfs: &mut Vfs,
    flake_path: &String,
    lock_path: &String,
    probe: FlakeProbe,
) -> (r: Result<LoadFlakeResult, String>)
    requires
        old(vfs).wf(),
    ensures
        final(vfs).wf(),
        crate::event::flake_outcome_view(r) == flake_loaded(
            old(vfs)@,
            flake_path@,
            lock_path@,
            probe,
        ).0,
        final(vfs)@ == flake_loaded(old(vfs)@, flake_path@, lock_path@, probe).1,
{
    let ghost src = probe.flake_src();
    match probe {
        FlakeProbe::RootMissing => Ok(LoadFlakeResult::NotFlake),
        FlakeProbe::RootUnreadable(error) => {
            let mut context = "Failed to read flake root ".to_owned();
            context.append(quote_path(flake_path.as_str()).as_str());
            Err(add_context(context, &error))
        },
        FlakeProbe::LockMissing { flake_src } => {
            match flake_file(vfs, flake_path, flake_src) {
                Err(e) => Err(e.message()),
                Ok(file) => {
                    let none: Vec<(String, String)> = Vec::new();
                    assert(pairs_view(none@) =~= Seq::empty());
                    let info = FlakeInfo::from_distinct(file, none);
                    Ok(LoadFlakeResult::IsFlake { flake_info: info, missing_inputs: false })
                },
            }
        },
        FlakeProbe::LockUnreadable { flake_src, error } => {
            match flake_file(vfs, flake_path, flake_src) {
                Err(e) => Err(e.message()),
                Ok(_) => {
                    let mut context = "Failed to read flake lock ".to_owned();
                    context.append(quote_path(lock_path.as_str()).as_str());
                    Err(add_context(context, &error))
                },
            }
        },
        FlakeProbe::Unresolved { flake_src, error } => {
            match flake_file(vfs, flake_path, flake_src) {
                Err(e) => Err(e.message()),
                Ok(_) => Err(
                    add_context("Failed to resolve flake inputs from lock file".to_owned(), &error),
                ),
            }
        },
        FlakeProbe::Resolved { flake_src, inputs } => {
            match flake_file(vfs, flake_path, flake_src) {
                Err(e) => Err(e.message()),
                Ok(file) => {
                    let (kept, missing) = select_inputs(&inputs);
                    let info = FlakeInfo::from_distinct(file, kept);
                    Ok(LoadFlakeResult::IsFlake { flake_info: info, missing_inputs: missing })
                },
            }
        },
    }
}

/// Makes sure that the file system holds the flake file.
fn flake_file(vfs: &mut Vfs, path: &String, src: Vec<u8>) -> (r: Result<FileId, VfsError>)
    requires
        old(vfs).wf(),
    ensures
        final(vfs).wf(),
        match flake_file_of(old(vfs)@, path@, src@) {
            Ok((file, after)) => r == Ok::<FileId, VfsError>(file) && final(vfs)@ == after,
            Err(e) => r == Err::<FileId, VfsError>(e) && final(vfs)@ == old(vfs)@,
        },
{
    match vfs.file_for_path(path.as_str()) {
        Ok(file) => Ok(file),
        Err(_) => vfs.set_path_content(path.clone(), src),
    }
}

} // verus!
