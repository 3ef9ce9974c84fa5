//! The prior selector: turns the manifest's tagged `(name, parameters)`
//! pair into one concrete tree-prior variant, validating arity.
//!
//! The set of recognised tags is closed: anything else is rejected, there
//! is no fallback prior.

use vstd::prelude::*;

use crate::config::{PriorDist, Real, TreePrior};
use crate::error::{result_model, ConfigError, ErrorModel};

verus! {

/// What the selector returns for a tag and parameter list: `"Uniform"`
/// takes exactly two parameters, the low and high root-age bounds, kept
/// exactly; `"Coalescent"` takes exactly one, whose nearest integer
/// becomes the interval count; every other tag is invalid.
pub open spec fn spec_select_tree_prior(tag: Seq<char>, params: Seq<Real>) -> Result<
    TreePrior,
    ErrorModel,
> {
    if tag == "Uniform"@ {
        if params.len() == 2 {
            Ok(
                TreePrior::Uniform {
                    root: PriorDist::Uniform { low: params[0], high: params[1] },
                },
            )
        } else {
            Err(ErrorModel::InvalidPrior { tag: tag, expected: Some(2usize) })
        }
    } else if tag == "Coalescent"@ {
        if params.len() == 1 {
            Ok(TreePrior::Coalescent { num_intervals: params[0].rounded })
        } else {
            Err(ErrorModel::InvalidPrior { tag: tag, expected: Some(1usize) })
        }
    } else {
        Err(ErrorModel::InvalidPrior { tag: tag, expected: None })
    }
}

/// Selects the tree prior named by `tag`; see [`spec_select_tree_prior`].
pub fn select_tree_prior(tag: &String, params: &Vec<Real>) -> (r: Result<TreePrior, ConfigError>)
    ensures
        result_model(r) == spec_select_tree_prior(tag@, params@),
{
    if tag.eq(&"Uniform".to_owned()) {
        if params.len() == 2 {
            Ok(TreePrior::Uniform { root: PriorDist::Uniform { low: params[0], high: params[1] } })
        } else {
            Err(ConfigError::InvalidPrior { tag: tag.clone(), expected: Some(2) })
        }
    } else if tag.eq(&"Coalescent".to_owned()) {
        if params.len() == 1 {
            Ok(TreePrior::Coalescent { num_intervals: params[0].rounded })
        } else {
            Err(ConfigError::InvalidPrior { tag: tag.clone(), expected: Some(1) })
        }
    } else {
        Err(ConfigError::InvalidPrior { tag: tag.clone(), expected: None })
    }
}

} // verus!
