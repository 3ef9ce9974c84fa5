use dyr::error::ConfigError;
use dyr::manifest::MConstraint;
use dyr::registry::TaxonRegistry;
use dyr::resolve::resolve_constraints;

fn names(list: &[&str]) -> Vec<String> {
    list.iter().map(|s| s.to_string()).collect()
}

fn decl(name: &str, clade: &[&str], ancestor: Option<&str>) -> MConstraint {
    MConstraint {
        name: name.to_string(),
        clade: names(clade),
        ancestor: ancestor.map(|s| s.to_string()),
    }
}

fn abc() -> TaxonRegistry {
    TaxonRegistry::new(names(&["A", "B", "C"]))
}

#[test]
fn clade_of_taxa_resolves_to_their_ids() {
    let decls = vec![decl("X", &["A", "B"], None)];
    let built = resolve_constraints(&abc(), &decls).unwrap();
    assert_eq!(built.len(), 1);
    assert_eq!(built[0].tips, vec![1, 2]);
    assert_eq!(built[0].ancestor, None);
}

#[test]
fn clade_duplicates_collapse_and_order_does_not_change_the_set() {
    let forward = vec![decl("X", &["A", "B", "A"], None)];
    let backward = vec![decl("X", &["B", "A", "B"], None)];
    let f = resolve_constraints(&abc(), &forward).unwrap();
    let b = resolve_constraints(&abc(), &backward).unwrap();
    assert_eq!(f[0].tips, vec![1, 2]);
    assert_eq!(b[0].tips, vec![2, 1]);
    let mut fs = f[0].tips.clone();
    let mut bs = b[0].tips.clone();
    fs.sort();
    bs.sort();
    assert_eq!(fs, bs);
}

#[test]
fn reference_expands_to_earlier_clade_union() {
    let decls = vec![decl("X", &["A", "B"], None), decl("Y", &["X", "C"], None)];
    let built = resolve_constraints(&abc(), &decls).unwrap();
    assert_eq!(built[0].tips, vec![1, 2]);
    assert_eq!(built[1].tips, vec![1, 2, 3]);
}

#[test]
fn reference_includes_referenced_ancestor_id() {
    let decls = vec![decl("X", &["A"], Some("C")), decl("Y", &["X", "B"], None)];
    let built = resolve_constraints(&abc(), &decls).unwrap();
    assert_eq!(built[0].tips, vec![1]);
    assert_eq!(built[0].ancestor, Some(3));
    // X contributes its clade {1} and its ancestor 3, then B adds 2.
    assert_eq!(built[1].tips, vec![1, 3, 2]);
    assert_eq!(built[1].ancestor, None);
}

#[test]
fn taxon_name_shadows_earlier_declaration() {
    let reg = TaxonRegistry::new(names(&["X", "A"]));
    let decls = vec![decl("X", &["A"], None), decl("Y", &["X"], None)];
    let built = resolve_constraints(&reg, &decls).unwrap();
    // The tag X is the taxon with id 1, not the declaration resolving to {2}.
    assert_eq!(built[1].tips, vec![1]);
}

#[test]
fn ancestor_naming_a_declaration_fails_as_unknown_taxon() {
    let decls = vec![decl("X", &["A", "B"], None), decl("Y", &["C"], Some("X"))];
    match resolve_constraints(&abc(), &decls) {
        Err(ConfigError::UnknownTaxon { name }) => assert_eq!(name, "X"),
        other => panic!("expected an unknown-taxon error, got {:?}", other),
    }
}

#[test]
fn forward_reference_fails_as_unresolved_tag() {
    let decls = vec![decl("X", &["Y", "A"], None), decl("Y", &["B"], None)];
    match resolve_constraints(&abc(), &decls) {
        Err(ConfigError::UnresolvedTag { constraint, tag }) => {
            assert_eq!(constraint, "X");
            assert_eq!(tag, "Y");
        }
        other => panic!("expected an unresolved-tag error, got {:?}", other),
    }
}

#[test]
fn self_reference_fails_as_unresolved_tag() {
    let decls = vec![decl("X", &["X"], None)];
    match resolve_constraints(&abc(), &decls) {
        Err(ConfigError::UnresolvedTag { constraint, tag }) => {
            assert_eq!(constraint, "X");
            assert_eq!(tag, "X");
        }
        other => panic!("expected an unresolved-tag error, got {:?}", other),
    }
}

#[test]
fn never_declared_tag_fails_as_unresolved_tag() {
    let decls = vec![decl("X", &["A", "D"], None)];
    match resolve_constraints(&abc(), &decls) {
        Err(ConfigError::UnresolvedTag { constraint, tag }) => {
            assert_eq!(constraint, "X");
            assert_eq!(tag, "D");
            let e = ConfigError::UnresolvedTag { constraint, tag };
            assert_eq!(e.message(), "Could not understand: D in constraint X");
        }
        other => panic!("expected an unresolved-tag error, got {:?}", other),
    }
}

#[test]
fn ancestor_id_may_repeat_a_clade_member() {
    let decls = vec![decl("X", &["A", "B"], Some("B"))];
    let built = resolve_constraints(&abc(), &decls).unwrap();
    assert_eq!(built[0].tips, vec![1, 2]);
    assert_eq!(built[0].ancestor, Some(2));
}

#[test]
fn empty_declaration_list_resolves_to_nothing() {
    let built = resolve_constraints(&abc(), &Vec::new()).unwrap();
    assert!(built.is_empty());
}

#[test]
fn later_error_reports_first_failing_declaration() {
    let decls = vec![
        decl("X", &["A"], None),
        decl("Y", &["D"], None),
        decl("Z", &["E"], None),
    ];
    match resolve_constraints(&abc(), &decls) {
        Err(ConfigError::UnresolvedTag { constraint, tag }) => {
            assert_eq!(constraint, "Y");
            assert_eq!(tag, "D");
        }
        other => panic!("expected an unresolved-tag error, got {:?}", other),
    }
}
