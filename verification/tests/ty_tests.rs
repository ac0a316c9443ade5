use nil::order::{rank, Rank};
use nil::ty::{flake_input_names, module_input_names, AttrSource, Attrset, ModuleKind, NameId, Ty};
use std::sync::Arc;

fn names(set: &Attrset) -> Vec<String> {
    set.iter().into_iter().map(|(name, _, _)| name.to_string()).collect()
}

fn strings(list: &[&str]) -> Vec<String> {
    list.iter().map(|s| s.to_string()).collect()
}

#[test]
fn rank_is_the_order_of_str() {
    let samples = ["", "a", "ab", "b", "B", "a\u{e9}", "az", "\u{1f600}", "\u{ffff}", "~", "a b"];
    for a in samples {
        for b in samples {
            let expected = if a < b {
                Rank::Before
            } else if a == b {
                Rank::Same
            } else {
                Rank::After
            };
            assert_eq!(rank(a, b), expected, "{a:?} against {b:?}");
        }
    }
    assert_eq!(rank("a", "b"), Rank::Before);
    assert_eq!(rank("b", "a"), Rank::After);
    assert_eq!(rank("a", "aa"), Rank::Before);
    assert_eq!(rank("Z", "a"), Rank::Before);
}

#[test]
fn default_attrset_is_empty() {
    let set = Attrset::default();
    assert!(set.is_empty());
    assert_eq!(set.len(), 0);
    assert!(set.get("a").is_none());
    assert!(set.get_src("a").is_none());
    assert!(set.iter().is_empty());
}

#[test]
fn from_internal_sorts_by_name() {
    let set = Attrset::from_internal(vec![
        ("outputs", Ty::Lambda(Arc::new(Ty::Unknown), Arc::new(Ty::Unknown))),
        ("description", Ty::String),
        ("inputs", Ty::Attrset(Attrset::default())),
        ("nixConfig", Ty::Bool),
    ]);
    assert!(!set.is_empty());
    assert_eq!(set.len(), 4);
    assert_eq!(names(&set), vec!["description", "inputs", "nixConfig", "outputs"]);
    assert_eq!(set.get("description"), Some(&Ty::String));
    assert_eq!(set.get("nixConfig"), Some(&Ty::Bool));
    assert_eq!(set.get("inputs"), Some(&Ty::Attrset(Attrset::default())));
    assert_eq!(
        set.get("outputs"),
        Some(&Ty::Lambda(Arc::new(Ty::Unknown), Arc::new(Ty::Unknown)))
    );
    assert_eq!(set.get("output"), None);
    assert_eq!(set.get("outputss"), None);
    assert_eq!(set.get(""), None);
    assert_eq!(set.get_src("inputs"), Some(AttrSource::Unknown));
    assert_eq!(set.get_src("missing"), None);
    for (_, _, source) in set.iter() {
        assert_eq!(source, AttrSource::Unknown);
    }
}

#[test]
fn from_internal_of_one_and_of_many() {
    let one = Attrset::from_internal(vec![("x", Ty::Int)]);
    assert_eq!(one.len(), 1);
    assert_eq!(one.get("x"), Some(&Ty::Int));
    let none = Attrset::from_internal(Vec::new());
    assert!(none.is_empty());
    assert_eq!(none, Attrset::default());
    let letters = ["k", "c", "z", "a", "m", "b", "y", "d", "x", "e"];
    let many = Attrset::from_internal(letters.iter().map(|n| (*n, Ty::Path)).collect());
    assert_eq!(names(&many), vec!["a", "b", "c", "d", "e", "k", "m", "x", "y", "z"]);
    for letter in letters {
        assert_eq!(many.get(letter), Some(&Ty::Path));
    }
    assert_eq!(many.get("f"), None);
}

#[test]
fn attrsets_with_the_same_fields_are_equal() {
    let a = Attrset::from_internal(vec![("x", Ty::Int), ("y", Ty::Float)]);
    let b = Attrset::from_internal(vec![("y", Ty::Float), ("x", Ty::Int)]);
    assert_eq!(a, b);
    assert_eq!(a.clone(), a);
}

#[test]
fn as_attrset_of_each_type() {
    let set = Attrset::from_internal(vec![("x", Ty::Int)]);
    assert_eq!(Ty::Attrset(set.clone()).as_attrset(), Some(&set));
    assert_eq!(Ty::Unknown.as_attrset(), None);
    assert_eq!(Ty::Bool.as_attrset(), None);
    assert_eq!(Ty::List(Arc::new(Ty::Attrset(set))).as_attrset(), None);
}

#[test]
fn display_and_debug_depths() {
    let ty = Ty::List(Arc::new(Ty::Int));
    assert_eq!(ty.display().max_depth(), 2);
    assert_eq!(ty.display().shown(), &ty);
    assert_eq!(ty.debug().max_depth(), usize::MAX);
    assert_eq!(ty.debug().shown(), &ty);
}

#[test]
fn attr_sources() {
    assert_eq!(AttrSource::Name(NameId(3)), AttrSource::Name(NameId(3)));
    assert_ne!(AttrSource::Name(NameId(3)), AttrSource::Unknown);
}

#[test]
fn flake_inputs_are_sorted_and_deduplicated() {
    let explicit = strings(&["nixpkgs", "flake-utils", "rust-overlay"]);
    let params = strings(&["self", "nixpkgs", "home-manager", "self"]);
    assert_eq!(
        flake_input_names(&explicit, &params),
        strings(&["flake-utils", "home-manager", "nixpkgs", "rust-overlay", "self"])
    );
    assert_eq!(flake_input_names(&Vec::new(), &Vec::new()), Vec::<String>::new());
    assert_eq!(flake_input_names(&strings(&["b", "a", "b"]), &Vec::new()), strings(&["a", "b"]));
}

#[test]
fn only_a_flake_has_input_names() {
    assert_eq!(module_input_names(&ModuleKind::Unknown), None);
    let kind = ModuleKind::FlakeNix {
        explicit_inputs: strings(&["b"]),
        param_inputs: strings(&["a", "b"]),
    };
    assert_eq!(module_input_names(&kind), Some(strings(&["a", "b"])));
}
