use nil::event::LoadFlakeResult;
use nil::flake::{load_flake_result, select_inputs, FlakeProbe, ResolvedInput, ResolvedInputs};
use nil::vfs::Vfs;

fn input(name: &str, path: &str, exists: bool) -> ResolvedInput {
    ResolvedInput { name: name.to_owned(), store_path: path.to_owned(), exists }
}

fn valid(list: Vec<ResolvedInput>) -> ResolvedInputs {
    ResolvedInputs::new(list).unwrap()
}

fn load(vfs: &mut Vfs, probe: FlakeProbe) -> Result<LoadFlakeResult, String> {
    load_flake_result(vfs, &"/w/flake.nix".to_owned(), &"/w/flake.lock".to_owned(), probe)
}

#[test]
fn no_flake_file_is_not_a_flake() {
    let mut vfs = Vfs::new();
    assert!(matches!(load(&mut vfs, FlakeProbe::RootMissing), Ok(LoadFlakeResult::NotFlake)));
    assert_eq!(vfs.file_count(), 0);
}

#[test]
fn no_lock_file_is_a_flake_without_inputs() {
    let mut vfs = Vfs::new();
    match load(&mut vfs, FlakeProbe::LockMissing { flake_src: b"{ }".to_vec() }) {
        Ok(LoadFlakeResult::IsFlake { flake_info, missing_inputs }) => {
            assert!(!missing_inputs);
            assert!(flake_info.input_store_paths().is_empty());
            assert_eq!(vfs.file_for_path("/w/flake.nix"), Ok(flake_info.flake_file()));
            assert_eq!(vfs.content_for_file(flake_info.flake_file()), &b"{ }".to_vec());
        }
        other => panic!("unexpected {other:?}"),
    }
}

#[test]
fn missing_store_path_is_excluded() {
    let mut vfs = Vfs::new();
    let inputs = valid(vec![
        input("nixpkgs", "/nix/store/a", true),
        input("utils", "/nix/store/nonexistent", false),
        input("rust", "/nix/store/c", true),
    ]);
    match load(&mut vfs, FlakeProbe::Resolved { flake_src: b"{ }".to_vec(), inputs }) {
        Ok(LoadFlakeResult::IsFlake { flake_info, missing_inputs }) => {
            assert!(missing_inputs);
            assert_eq!(
                flake_info.input_store_paths(),
                &vec![
                    ("nixpkgs".to_owned(), "/nix/store/a".to_owned()),
                    ("rust".to_owned(), "/nix/store/c".to_owned()),
                ]
            );
        }
        other => panic!("unexpected {other:?}"),
    }
}

#[test]
fn all_inputs_present() {
    let mut vfs = Vfs::new();
    let inputs = valid(vec![input("nixpkgs", "/nix/store/a", true)]);
    match load(&mut vfs, FlakeProbe::Resolved { flake_src: b"{ }".to_vec(), inputs }) {
        Ok(LoadFlakeResult::IsFlake { flake_info, missing_inputs }) => {
            assert!(!missing_inputs);
            assert_eq!(flake_info.input_store_paths().len(), 1);
        }
        other => panic!("unexpected {other:?}"),
    }
    let (kept, missing) = select_inputs(&valid(Vec::new()));
    assert!(kept.is_empty());
    assert!(!missing);
}

#[test]
fn select_inputs_keeps_order() {
    let (kept, missing) = select_inputs(&valid(vec![
        input("a", "/1", false),
        input("b", "/2", true),
        input("c", "/3", false),
        input("d", "/4", true),
    ]));
    assert!(missing);
    assert_eq!(
        kept,
        vec![("b".to_owned(), "/2".to_owned()), ("d".to_owned(), "/4".to_owned())]
    );
}

#[test]
fn read_failures_carry_their_context() {
    let mut vfs = Vfs::new();
    assert_eq!(
        load(&mut vfs, FlakeProbe::RootUnreadable("permission denied".to_owned())).unwrap_err(),
        "Failed to read flake root \"/w/flake.nix\": permission denied"
    );
    assert_eq!(vfs.file_count(), 0);
    let probe = FlakeProbe::LockUnreadable {
        flake_src: b"{ }".to_vec(),
        error: "is a directory".to_owned(),
    };
    assert_eq!(
        load(&mut vfs, probe).unwrap_err(),
        "Failed to read flake lock \"/w/flake.lock\": is a directory"
    );
    assert_eq!(vfs.file_count(), 1);
    let probe =
        FlakeProbe::Unresolved { flake_src: b"{ }".to_vec(), error: "nix exited with 1".to_owned() };
    assert_eq!(
        load(&mut vfs, probe).unwrap_err(),
        "Failed to resolve flake inputs from lock file: nix exited with 1"
    );
}

#[test]
fn a_path_without_uri_is_refused() {
    let mut vfs = Vfs::new();
    let probe = FlakeProbe::LockMissing { flake_src: b"{ }".to_vec() };
    let outcome =
        load_flake_result(&mut vfs, &"flake.nix".to_owned(), &"flake.lock".to_owned(), probe);
    assert_eq!(outcome.unwrap_err(), "Invalid path");
    assert_eq!(vfs.file_count(), 0);
}

#[test]
fn quotes_in_paths_are_escaped() {
    let mut vfs = Vfs::new();
    let outcome = load_flake_result(
        &mut vfs,
        &"/w/a\"b/flake.nix".to_owned(),
        &"/w/a\"b/flake.lock".to_owned(),
        FlakeProbe::RootUnreadable("no".to_owned()),
    );
    assert_eq!(outcome.unwrap_err(), "Failed to read flake root \"/w/a\\\"b/flake.nix\": no");
}

#[test]
fn an_input_named_twice_is_refused() {
    assert!(ResolvedInputs::new(vec![input("a", "/1", true), input("a", "/2", false)]).is_none());
    assert!(ResolvedInputs::new(vec![input("a", "/1", true), input("b", "/1", true)]).is_some());
    assert_eq!(valid(vec![input("a", "/1", true), input("b", "/1", true)]).len(), 2);
}
