use lsp_types::{Position, Range};
use nil::vfs::{
    all_differ, copy_bytes, edit_content, line_index, workspace_root, FileId, FlakeInfo, Vfs,
    VfsError, WorkspaceRoot,
};

fn bytes(text: &str) -> Vec<u8> {
    text.as_bytes().to_vec()
}

#[test]
fn new_vfs_is_empty() {
    let mut vfs = Vfs::new();
    assert_eq!(vfs.file_count(), 0);
    assert!(vfs.flake_info().is_none());
    let change = vfs.take_change();
    assert!(change.file_changes.is_empty());
    assert!(change.flake_info.is_none());
}

#[test]
fn line_index_lists_line_ends() {
    assert_eq!(line_index(&bytes("ab\ncd\n\nx")), vec![2, 5, 6]);
    assert_eq!(line_index(&bytes("")), Vec::<usize>::new());
    assert_eq!(line_index(&bytes("\n")), vec![0]);
}

#[test]
fn copy_bytes_copies() {
    assert_eq!(copy_bytes(&bytes("abc")), bytes("abc"));
}

#[test]
fn edit_content_replaces_span() {
    let content = bytes("hello world");
    assert_eq!(edit_content(&content, Some((6, 11)), &bytes("there")), Ok(bytes("hello there")));
    assert_eq!(edit_content(&content, Some((5, 5)), &bytes(",")), Ok(bytes("hello, world")));
    assert_eq!(edit_content(&content, Some((0, 11)), &bytes("")), Ok(bytes("")));
    assert_eq!(edit_content(&content, None, &bytes("new")), Ok(bytes("new")));
}

#[test]
fn edit_content_refuses_bad_span() {
    let content = bytes("hello");
    assert_eq!(edit_content(&content, Some((3, 2)), &bytes("x")), Err(VfsError::InvalidRange));
    assert_eq!(edit_content(&content, Some((0, 6)), &bytes("x")), Err(VfsError::InvalidRange));
    assert_eq!(edit_content(&content, Some((6, 6)), &bytes("x")), Err(VfsError::InvalidRange));
    assert_eq!(edit_content(&content, Some((5, 5)), &bytes("!")), Ok(bytes("hello!")));
}

#[test]
fn set_uri_content_interns_and_replaces() {
    let mut vfs = Vfs::new();
    let a = vfs.set_uri_content("file:///w/a.nix", bytes("1")).unwrap();
    let b = vfs.set_uri_content("file:///w/b.nix", bytes("2")).unwrap();
    assert_eq!(a, FileId(0));
    assert_eq!(b, FileId(1));
    let again = vfs.set_uri_content("file:///w/a.nix", bytes("3")).unwrap();
    assert_eq!(again, a);
    assert_eq!(vfs.file_count(), 2);
    assert_eq!(vfs.content_for_file(a), &bytes("3"));
    assert_eq!(vfs.content_for_file(b), &bytes("2"));
    assert_eq!(vfs.uri_for_file(a), "file:///w/a.nix");
    assert_eq!(vfs.file_for_uri("file:///w/b.nix"), Ok(b));
    assert_eq!(vfs.file_for_path("/w/a.nix"), Ok(a));
}

#[test]
fn uri_and_path_name_the_same_file() {
    let mut vfs = Vfs::new();
    let by_path = vfs.set_path_content("/w/flake.nix".to_owned(), bytes("{}")).unwrap();
    assert_eq!(vfs.file_for_uri("file:///w/flake.nix"), Ok(by_path));
    assert_eq!(vfs.uri_for_file(by_path), "file:///w/flake.nix");
    let by_uri = vfs.set_uri_content("file:///w/flake.nix", bytes("{ }")).unwrap();
    assert_eq!(by_uri, by_path);
    assert_eq!(vfs.file_count(), 1);
}

#[test]
fn percent_encoded_uri_is_decoded() {
    let mut vfs = Vfs::new();
    let file = vfs.set_uri_content("file:///w/a%20b.nix", bytes("1")).unwrap();
    assert_eq!(vfs.file_for_path("/w/a b.nix"), Ok(file));
}

#[test]
fn lookup_failures() {
    let mut vfs = Vfs::new();
    vfs.set_uri_content("file:///w/a.nix", bytes("1")).unwrap();
    assert_eq!(vfs.file_for_uri("file:///w/none.nix"), Err(VfsError::NotFound));
    assert_eq!(vfs.file_for_uri("not a uri"), Err(VfsError::NonFileUri));
    assert_eq!(vfs.file_for_uri("https://example.com/a.nix"), Err(VfsError::NonFileUri));
    assert_eq!(vfs.file_for_path("/w/none.nix"), Err(VfsError::NotFound));
}

#[test]
fn set_content_failures() {
    let mut vfs = Vfs::new();
    assert_eq!(
        vfs.set_uri_content("https://example.com/a.nix", bytes("1")),
        Err(VfsError::NonFileUri)
    );
    assert_eq!(
        vfs.set_path_content("relative/a.nix".to_owned(), bytes("1")),
        Err(VfsError::InvalidPath)
    );
    assert_eq!(vfs.file_count(), 0);
    assert!(vfs.take_change().file_changes.is_empty());
}

#[test]
fn change_file_content_applies_and_records() {
    let mut vfs = Vfs::new();
    let file = vfs.set_uri_content("file:///w/a.nix", bytes("{ x = 1; }")).unwrap();
    assert_eq!(vfs.change_file_content(file, Some((6, 7)), &bytes("42")), Ok(()));
    assert_eq!(vfs.content_for_file(file), &bytes("{ x = 42; }"));
    assert_eq!(vfs.change_file_content(file, None, &bytes("{ }")), Ok(()));
    assert_eq!(vfs.content_for_file(file), &bytes("{ }"));
    let change = vfs.take_change();
    assert_eq!(change.file_changes.len(), 3);
    assert_eq!(change.file_changes[0].file, file);
    assert_eq!(*change.file_changes[0].text, bytes("{ x = 1; }"));
    assert_eq!(*change.file_changes[1].text, bytes("{ x = 42; }"));
    assert_eq!(*change.file_changes[2].text, bytes("{ }"));
    assert!(vfs.take_change().file_changes.is_empty());
    assert_eq!(vfs.content_for_file(file), &bytes("{ }"));
}

#[test]
fn change_file_content_failures_change_nothing() {
    let mut vfs = Vfs::new();
    let file = vfs.set_uri_content("file:///w/a.nix", bytes("abc")).unwrap();
    vfs.take_change();
    assert_eq!(
        vfs.change_file_content(file, Some((2, 4)), &bytes("x")),
        Err(VfsError::InvalidRange)
    );
    assert_eq!(
        vfs.change_file_content(file, Some((2, 1)), &bytes("x")),
        Err(VfsError::InvalidRange)
    );
    assert_eq!(
        vfs.change_file_content(FileId(7), None, &bytes("x")),
        Err(VfsError::InvalidFile)
    );
    assert_eq!(vfs.content_for_file(file), &bytes("abc"));
    assert!(vfs.take_change().file_changes.is_empty());
}

#[test]
fn offsets_of_positions() {
    let mut vfs = Vfs::new();
    let file = vfs.set_uri_content("file:///w/a.nix", bytes("ab\ncd\n\nx")).unwrap();
    assert_eq!(vfs.offset_at(file, Position::new(0, 0)), Some(0));
    assert_eq!(vfs.offset_at(file, Position::new(0, 2)), Some(2));
    assert_eq!(vfs.offset_at(file, Position::new(0, 3)), None);
    assert_eq!(vfs.offset_at(file, Position::new(1, 0)), Some(3));
    assert_eq!(vfs.offset_at(file, Position::new(1, 2)), Some(5));
    assert_eq!(vfs.offset_at(file, Position::new(2, 0)), Some(6));
    assert_eq!(vfs.offset_at(file, Position::new(2, 1)), None);
    assert_eq!(vfs.offset_at(file, Position::new(3, 0)), Some(7));
    assert_eq!(vfs.offset_at(file, Position::new(3, 1)), Some(8));
    assert_eq!(vfs.offset_at(file, Position::new(3, 2)), None);
    assert_eq!(vfs.offset_at(file, Position::new(4, 0)), None);
}

#[test]
fn spans_of_ranges() {
    let mut vfs = Vfs::new();
    let file = vfs.set_uri_content("file:///w/a.nix", bytes("ab\ncd")).unwrap();
    let range = Range::new(Position::new(0, 1), Position::new(1, 1));
    assert_eq!(vfs.span_at(file, range), Some((1, 4)));
    let outside = Range::new(Position::new(0, 1), Position::new(2, 0));
    assert_eq!(vfs.span_at(file, outside), None);
    let backwards = Range::new(Position::new(1, 1), Position::new(0, 1));
    assert_eq!(vfs.span_at(file, backwards), Some((4, 1)));
}

#[test]
fn flake_info_is_kept_and_recorded() {
    let mut vfs = Vfs::new();
    let file = vfs.set_path_content("/w/flake.nix".to_owned(), bytes("{}")).unwrap();
    vfs.take_change();
    let inputs = vec![("nixpkgs".to_owned(), "/nix/store/abc".to_owned())];
    vfs.set_flake_info(Some(FlakeInfo::new(file, inputs).unwrap()));
    let kept = vfs.flake_info().as_ref().unwrap();
    assert_eq!(kept.flake_file(), file);
    assert_eq!(
        kept.input_store_paths(),
        &vec![("nixpkgs".to_owned(), "/nix/store/abc".to_owned())]
    );
    let change = vfs.take_change();
    let recorded = change.flake_info.unwrap().unwrap();
    assert_eq!(recorded.flake_file(), file);
    assert_eq!(recorded.input_store_paths().len(), 1);
    vfs.set_flake_info(None);
    assert!(vfs.flake_info().is_none());
    assert!(matches!(vfs.take_change().flake_info, Some(None)));
}

#[test]
fn duplicate_is_independent() {
    let mut vfs = Vfs::new();
    let file = vfs.set_uri_content("file:///w/a.nix", bytes("old")).unwrap();
    let copy = vfs.duplicate();
    vfs.change_file_content(file, None, &bytes("new")).unwrap();
    assert_eq!(copy.content_for_file(file), &bytes("old"));
    assert_eq!(vfs.content_for_file(file), &bytes("new"));
    assert_eq!(copy.offset_at(file, Position::new(0, 3)), Some(3));
}

#[test]
fn error_messages() {
    assert_eq!(VfsError::NonFileUri.message(), "Non-file URI");
    assert_eq!(VfsError::InvalidPath.message(), "Invalid path");
    assert_eq!(VfsError::TooManyFiles.message(), "Too many files");
    assert_eq!(VfsError::FileTooLarge.message(), "File too large");
    assert_eq!(VfsError::InvalidFile.message(), "Invalid file");
    assert_eq!(VfsError::InvalidRange.message(), "Invalid range");
    assert_eq!(VfsError::NotFound.message(), "File not found");
}

#[test]
fn workspace_root_of_a_uri() {
    assert!(matches!(workspace_root(None), Ok(WorkspaceRoot::WorkingDirectory)));
    match workspace_root(Some("file:///home/me/project")) {
        Ok(WorkspaceRoot::Path(path)) => assert_eq!(path, "/home/me/project"),
        other => panic!("unexpected {other:?}"),
    }
    assert_eq!(
        workspace_root(Some("https://example.com/project")).unwrap_err(),
        "Non-file URI: https://example.com/project"
    );
    assert_eq!(workspace_root(Some("nonsense")).unwrap_err(), "Non-file URI: nonsense");
}

#[test]
fn flake_inputs_have_names_of_their_own() {
    let pair = |name: &str, path: &str| (name.to_owned(), path.to_owned());
    assert!(FlakeInfo::new(FileId(0), Vec::new()).is_some());
    assert!(FlakeInfo::new(FileId(0), vec![pair("a", "/1"), pair("b", "/1")]).is_some());
    assert!(FlakeInfo::new(FileId(0), vec![pair("a", "/1"), pair("b", "/2"), pair("a", "/3")])
        .is_none());
    let info = FlakeInfo::new(FileId(3), vec![pair("a", "/1")]).unwrap();
    let copy = info.duplicate();
    assert_eq!(copy.flake_file(), FileId(3));
    assert_eq!(copy.input_store_paths(), info.input_store_paths());
    assert!(all_differ(&vec!["a".to_owned(), "b".to_owned(), "c".to_owned()]));
    assert!(!all_differ(&vec!["a".to_owned(), "b".to_owned(), "b".to_owned()]));
    assert!(all_differ(&Vec::new()));
}
