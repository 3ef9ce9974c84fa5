use dyr::calibrate::map_calibrations;
use dyr::config::{
    PriorDist, Real, SubstitutionModel, TreePrior, ASRV_NCATS, BITS_FIVE_HALVES, BITS_ONE,
    BITS_ZERO,
};
use dyr::config::default_traits_model;
use dyr::error::ConfigError;
use dyr::manifest::{
    is_false, is_one_hundred, is_ten_thousand, MChain, MConstraint, MData, MPriors, Manifest,
};
use dyr::registry::TaxonRegistry;
use dyr::schedule::{step_report, SNAPSHOT_BURNIN};

fn param(x: f64) -> Real {
    Real { bits: x.to_bits(), rounded: x.round() as usize }
}

fn names(list: &[&str]) -> Vec<String> {
    list.iter().map(|s| s.to_string()).collect()
}

fn decl(name: &str, clade: &[&str], ancestor: Option<&str>) -> MConstraint {
    MConstraint {
        name: name.to_string(),
        clade: names(clade),
        ancestor: ancestor.map(|s| s.to_string()),
    }
}

fn manifest(
    prior: (&str, Vec<Real>),
    calibrations: Vec<(String, (Real, Real))>,
    constraints: Vec<MConstraint>,
) -> Manifest {
    Manifest {
        data: MData { traits: "data.nex".to_string() },
        calibrations,
        constraints,
        priors: MPriors { tree: (prior.0.to_string(), prior.1) },
        mcmc: MChain { steps: 500, print: is_one_hundred(), dump: is_ten_thousand(), debug: is_false() },
    }
}

#[test]
fn end_to_end_three_taxa_two_constraints() {
    let m = manifest(
        ("Uniform", vec![param(0.0), param(100.0)]),
        Vec::new(),
        vec![decl("X", &["A", "B"], None), decl("Y", &["X", "C"], Some("C"))],
    );
    let cfg = m.build_config(names(&["A", "B", "C"]), 12).unwrap();
    assert_eq!(cfg.steps, 500);
    match cfg.model.tree.prior {
        TreePrior::Uniform { root: PriorDist::Uniform { low, high } } => {
            assert_eq!(low.bits, 0.0f64.to_bits());
            assert_eq!(high.bits, 100.0f64.to_bits());
        }
        other => panic!("expected a uniform tree prior, got {:?}", other),
    }
    assert!(cfg.model.tree.calibrations.is_empty());
    let cons = &cfg.model.tree.constraints;
    assert_eq!(cons.len(), 2);
    assert_eq!(cons[0].tips, vec![1, 2]);
    assert_eq!(cons[0].ancestor, None);
    assert_eq!(cons[1].tips, vec![1, 2, 3]);
    assert_eq!(cons[1].ancestor, Some(3));
    assert_eq!(cfg.model.tree.data.num_traits, 12);
    assert_eq!(cfg.model.tree.data.tips, names(&["A", "B", "C"]));
}

#[test]
fn calibrations_map_names_to_ids_with_exact_bounds() {
    let reg = TaxonRegistry::new(names(&["A", "B", "C"]));
    let cals = vec![
        ("B".to_string(), (param(1.5), param(7.25))),
        ("A".to_string(), (param(0.0), param(2.0))),
    ];
    let mapped = map_calibrations(&reg, &cals).unwrap();
    assert_eq!(mapped.len(), 2);
    assert_eq!(mapped[0].0, 2);
    assert_eq!(mapped[0].1.low.bits, 1.5f64.to_bits());
    assert_eq!(mapped[0].1.high.bits, 7.25f64.to_bits());
    assert_eq!(mapped[1].0, 1);
}

#[test]
fn calibration_with_unknown_taxon_reports_first_bad_name() {
    let reg = TaxonRegistry::new(names(&["A", "B"]));
    let cals = vec![
        ("A".to_string(), (param(0.0), param(1.0))),
        ("D".to_string(), (param(0.0), param(1.0))),
        ("E".to_string(), (param(0.0), param(1.0))),
    ];
    match map_calibrations(&reg, &cals) {
        Err(ConfigError::UnknownTaxon { name }) => {
            assert_eq!(name, "D");
            let e = ConfigError::UnknownTaxon { name };
            assert_eq!(e.message(), "No such tip: D");
        }
        other => panic!("expected an unknown-taxon error, got {:?}", other),
    }
}

#[test]
fn bad_calibration_aborts_whole_build() {
    // The constraint list is valid, but the build must fail on the
    // calibration and hand out no configuration at all.
    let m = manifest(
        ("Uniform", vec![param(0.0), param(1.0)]),
        vec![("D".to_string(), (param(0.0), param(1.0)))],
        vec![decl("X", &["A"], None)],
    );
    match m.build_config(names(&["A", "B"]), 1) {
        Err(ConfigError::UnknownTaxon { name }) => assert_eq!(name, "D"),
        other => panic!("expected an unknown-taxon error, got {:?}", other),
    }
}

#[test]
fn prior_error_wins_over_later_errors() {
    let m = manifest(
        ("Uniform", vec![param(0.0)]),
        vec![("D".to_string(), (param(0.0), param(1.0)))],
        vec![decl("X", &["E"], None)],
    );
    match m.build_config(names(&["A"]), 1) {
        Err(ConfigError::InvalidPrior { tag, expected }) => {
            assert_eq!(tag, "Uniform");
            assert_eq!(expected, Some(2));
        }
        other => panic!("expected an invalid-prior error, got {:?}", other),
    }
}

#[test]
fn calibration_error_wins_over_constraint_error() {
    let m = manifest(
        ("Uniform", vec![param(0.0), param(1.0)]),
        vec![("D".to_string(), (param(0.0), param(1.0)))],
        vec![decl("X", &["E"], None)],
    );
    match m.build_config(names(&["A"]), 1) {
        Err(ConfigError::UnknownTaxon { name }) => assert_eq!(name, "D"),
        other => panic!("expected an unknown-taxon error, got {:?}", other),
    }
}

#[test]
fn coalescent_build_uses_rounded_interval_count() {
    let m = manifest(("Coalescent", vec![param(6.7)]), Vec::new(), Vec::new());
    let cfg = m.build_config(names(&["A", "B"]), 3).unwrap();
    match cfg.model.tree.prior {
        TreePrior::Coalescent { num_intervals } => assert_eq!(num_intervals, 7),
        other => panic!("expected a coalescent tree prior, got {:?}", other),
    }
}

#[test]
fn default_traits_model_has_fixed_hyperparameters() {
    let t = default_traits_model();
    assert_eq!(t.num_traits, PriorDist::Reciprocal);
    assert_eq!(t.base, PriorDist::Reciprocal);
    match t.subst {
        SubstitutionModel::BinaryGTR { pi_one: PriorDist::Uniform { low, high } } => {
            assert_eq!(low.bits, 0.0f64.to_bits());
            assert_eq!(high.bits, 1.0f64.to_bits());
        }
        other => panic!("expected a binary substitution model, got {:?}", other),
    }
    assert!(t.asrv.enabled);
    assert_eq!(t.asrv.ncats, 4);
    assert_eq!(t.asrv.shape, PriorDist::Exponential { l: Real { bits: 2.5f64.to_bits(), rounded: 3 } });
    assert!(t.abrv.enabled);
    assert_eq!(t.abrv.shape, PriorDist::Exponential { l: Real { bits: BITS_FIVE_HALVES, rounded: 3 } });
}

#[test]
fn hyperparameter_bit_patterns_match_their_values() {
    assert_eq!(BITS_ZERO, 0.0f64.to_bits());
    assert_eq!(BITS_ONE, 1.0f64.to_bits());
    assert_eq!(BITS_FIVE_HALVES, 2.5f64.to_bits());
    assert_eq!(ASRV_NCATS, 4);
}

#[test]
fn step_report_follows_chain_cadence() {
    let chain = MChain { steps: 1000, print: 100, dump: 250, debug: false };
    let r = step_report(0, &chain);
    assert!(r.print);
    assert!(!r.dump);
    assert!(!r.snapshot);
    let r = step_report(100, &chain);
    assert!(r.print);
    let r = step_report(101, &chain);
    assert!(!r.print);
    let r = step_report(249, &chain);
    assert!(r.dump);
    let r = step_report(250, &chain);
    assert!(!r.dump);
}

#[test]
fn snapshots_begin_only_after_burn_in() {
    let chain = MChain { steps: 1000, print: 100, dump: 250, debug: false };
    assert!(!step_report(1003, &chain).snapshot);
    assert!(!step_report(SNAPSHOT_BURNIN, &chain).snapshot);
    assert!(step_report(SNAPSHOT_BURNIN + 3, &chain).snapshot);
    assert!(!step_report(SNAPSHOT_BURNIN + 4, &chain).snapshot);
    assert!(step_report(SNAPSHOT_BURNIN + 1003, &chain).snapshot);
}
