use dyr::config::{PriorDist, Real, TreePrior};
use dyr::error::ConfigError;
use dyr::prior::select_tree_prior;
use dyr::registry::TaxonRegistry;

fn param(x: f64) -> Real {
    Real { bits: x.to_bits(), rounded: x.round() as usize }
}

fn names(list: &[&str]) -> Vec<String> {
    list.iter().map(|s| s.to_string()).collect()
}

#[test]
fn registry_assigns_ids_in_input_order() {
    let reg = TaxonRegistry::new(names(&["A", "B", "C"]));
    assert_eq!(reg.len(), 3);
    assert_eq!(reg.lookup(&"A".to_string()), Some(1));
    assert_eq!(reg.lookup(&"B".to_string()), Some(2));
    assert_eq!(reg.lookup(&"C".to_string()), Some(3));
}

#[test]
fn registry_unknown_name_is_none() {
    let reg = TaxonRegistry::new(names(&["A", "B"]));
    assert_eq!(reg.lookup(&"C".to_string()), None);
    assert_eq!(reg.lookup(&"".to_string()), None);
}

#[test]
fn registry_empty_list_has_no_ids() {
    let reg = TaxonRegistry::new(Vec::new());
    assert_eq!(reg.len(), 0);
    assert_eq!(reg.lookup(&"A".to_string()), None);
}

#[test]
fn registry_duplicate_name_keeps_last_id() {
    let reg = TaxonRegistry::new(names(&["A", "B", "A"]));
    assert_eq!(reg.lookup(&"A".to_string()), Some(3));
    assert_eq!(reg.lookup(&"B".to_string()), Some(2));
}

#[test]
fn uniform_prior_preserves_bounds_exactly() {
    let params = vec![param(0.0), param(100.0)];
    let r = select_tree_prior(&"Uniform".to_string(), &params);
    match r {
        Ok(TreePrior::Uniform { root: PriorDist::Uniform { low, high } }) => {
            assert_eq!(low.bits, 0.0f64.to_bits());
            assert_eq!(high.bits, 100.0f64.to_bits());
        }
        other => panic!("expected a uniform prior, got {:?}", other),
    }
}

#[test]
fn uniform_prior_keeps_awkward_values_bit_for_bit() {
    let params = vec![param(-0.0), param(0.1)];
    let r = select_tree_prior(&"Uniform".to_string(), &params);
    match r {
        Ok(TreePrior::Uniform { root: PriorDist::Uniform { low, high } }) => {
            assert_eq!(low.bits, (-0.0f64).to_bits());
            assert_eq!(high.bits, 0.1f64.to_bits());
            assert_eq!(f64::from_bits(high.bits), 0.1);
        }
        other => panic!("expected a uniform prior, got {:?}", other),
    }
}

#[test]
fn uniform_prior_wrong_arity_fails() {
    for params in [vec![], vec![param(1.0)], vec![param(1.0), param(2.0), param(3.0)]] {
        let r = select_tree_prior(&"Uniform".to_string(), &params);
        match r {
            Err(ConfigError::InvalidPrior { tag, expected }) => {
                assert_eq!(tag, "Uniform");
                assert_eq!(expected, Some(2));
            }
            other => panic!("expected an invalid-prior error, got {:?}", other),
        }
    }
}

#[test]
fn coalescent_prior_rounds_to_nearest_interval_count() {
    for (x, want) in [(4.0, 4usize), (2.6, 3), (2.4, 2), (2.5, 3), (0.0, 0)] {
        let r = select_tree_prior(&"Coalescent".to_string(), &vec![param(x)]);
        match r {
            Ok(TreePrior::Coalescent { num_intervals }) => assert_eq!(num_intervals, want),
            other => panic!("expected a coalescent prior, got {:?}", other),
        }
    }
}

#[test]
fn coalescent_prior_wrong_arity_fails() {
    for params in [vec![], vec![param(1.0), param(2.0)]] {
        let r = select_tree_prior(&"Coalescent".to_string(), &params);
        match r {
            Err(ConfigError::InvalidPrior { tag, expected }) => {
                assert_eq!(tag, "Coalescent");
                assert_eq!(expected, Some(1));
            }
            other => panic!("expected an invalid-prior error, got {:?}", other),
        }
    }
}

#[test]
fn unrecognised_prior_tag_fails() {
    let r = select_tree_prior(&"Yule".to_string(), &vec![param(1.0)]);
    match r {
        Err(ConfigError::InvalidPrior { tag, expected }) => {
            assert_eq!(tag, "Yule");
            assert_eq!(expected, None);
        }
        other => panic!("expected an invalid-prior error, got {:?}", other),
    }
}

#[test]
fn prior_error_messages_name_the_arity() {
    let e = ConfigError::InvalidPrior { tag: "Uniform".to_string(), expected: Some(2) };
    assert_eq!(e.message(), "Uniform prior expects two arguments.");
    let e = ConfigError::InvalidPrior { tag: "Coalescent".to_string(), expected: Some(1) };
    assert_eq!(e.message(), "Coalescent prior expects one argument.");
    let e = ConfigError::InvalidPrior { tag: "Yule".to_string(), expected: None };
    assert_eq!(e.message(), "Unrecognised prior: Yule");
}
