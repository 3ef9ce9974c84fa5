//! The decoded run manifest and the build pass that compiles it into a
//! [`DyrConfig`](crate::config::DyrConfig).
//!
//! A driver decodes the manifest document and the trait-data file outside
//! this crate and hands over plain values: the manifest fields with every
//! real parameter as a [`Real`], and the ordered tip list the external
//! data loader produced.

use vstd::prelude::*;

use crate::calibrate::{map_calibrations, spec_map_calibrations};
use crate::config::{
    default_traits_model, spec_default_traits_model, Configuration, ConfigurationValue, DyrConfig,
    DyrConfigValue, Real, TreeData, TreeDataModel, TreeModel, TreeModelValue,
};
use crate::error::{ConfigError, ErrorModel};
use crate::prior::{select_tree_prior, spec_select_tree_prior};
use crate::registry::TaxonRegistry;
use crate::resolve::{resolve_constraints, spec_resolve_constraints};

verus! {

/// The manifest's data section: where the trait data lives.
#[derive(Clone, Debug)]
pub struct MData {
    pub traits: String,
}

/// A prior as the manifest writes it: a tag and a parameter list.
pub type MPrior = (String, Vec<Real>);

/// The manifest's priors section.
pub struct MPriors {
    pub tree: MPrior,
}

/// Default reporting cadence when the manifest omits `mcmc.print`.
pub fn is_one_hundred() -> (n: usize)
    ensures
        n == 100,
{
    100
}

/// Default dump cadence when the manifest omits `mcmc.dump`.
pub fn is_ten_thousand() -> (n: usize)
    ensures
        n == 10_000,
{
    10_000
}

/// Default debug flag when the manifest omits `mcmc.debug`.
pub fn is_false() -> (b: bool)
    ensures
        b == false,
{
    false
}

/// The manifest's chain section: how long to run and how often to report.
#[derive(Clone, PartialEq, Eq, Structural, Debug)]
pub struct MChain {
    pub steps: usize,
    pub print: usize,
    pub dump: usize,
    pub debug: bool,
}

/// A named constraint declaration as the manifest writes it: a unique
/// name, an ordered list of clade tags (each a taxon name or the name of
/// an earlier declaration), and optionally an ancestor tag, which must
/// name a taxon.
#[derive(Clone, Debug)]
pub struct MConstraint {
    pub name: String,
    pub clade: Vec<String>,
    pub ancestor: Option<String>,
}

/// Mathematical value of an [`MConstraint`].
pub struct DeclModel {
    pub name: Seq<char>,
    pub clade: Seq<Seq<char>>,
    pub ancestor: Option<Seq<char>>,
}

impl View for MConstraint {
    type V = DeclModel;

    open spec fn view(&self) -> DeclModel {
        DeclModel {
            name: self.name@,
            clade: self.clade.deep_view(),
            ancestor: self.ancestor.deep_view(),
        }
    }
}

impl DeepView for MConstraint {
    type V = DeclModel;

    open spec fn deep_view(&self) -> DeclModel {
        self.view()
    }
}

/// The whole decoded manifest.
pub struct Manifest {
    pub data: MData,
    pub calibrations: Vec<(String, (Real, Real))>,
    pub constraints: Vec<MConstraint>,
    pub priors: MPriors,
    pub mcmc: MChain,
}

/// What the build pass produces for a decoded manifest, the ordered tip
/// list and the trait count: the first failure among prior selection,
/// calibration mapping and constraint resolution, in that order, or the
/// assembled configuration. The assembly step itself validates nothing:
/// it only composes the three results with the data handle, the fixed
/// trait-model hyperparameters and the chain length.
pub open spec fn spec_build_config(
    prior_tag: Seq<char>,
    prior_params: Seq<Real>,
    cals: Seq<(Seq<char>, (Real, Real))>,
    decls: Seq<DeclModel>,
    steps: usize,
    tip_names: Seq<Seq<char>>,
    num_traits: usize,
) -> Result<DyrConfigValue, ErrorModel> {
    match spec_select_tree_prior(prior_tag, prior_params) {
        Err(e) => Err(e),
        Ok(prior) => match spec_map_calibrations(tip_names, cals) {
            Err(e) => Err(e),
            Ok(cal) => match spec_resolve_constraints(tip_names, decls) {
                Err(e) => Err(e),
                Ok(cons) => Ok(
                    DyrConfigValue {
                        steps,
                        model: ConfigurationValue {
                            tree: TreeModelValue {
                                prior,
                                data: TreeDataModel { num_traits, tips: tip_names },
                                calibrations: cal,
                                constraints: cons,
                            },
                            traits: spec_default_traits_model(),
                        },
                    },
                ),
            },
        },
    }
}

/// A single bad calibration aborts the whole build: when the prior is
/// valid but some calibration name does not resolve, the build's result
/// is exactly that failure, whatever the constraint declarations hold —
/// no configuration and no partial constraint list comes out.
pub proof fn lemma_calibration_failure_aborts_build(
    prior_tag: Seq<char>,
    prior_params: Seq<Real>,
    cals: Seq<(Seq<char>, (Real, Real))>,
    decls: Seq<DeclModel>,
    steps: usize,
    tip_names: Seq<Seq<char>>,
    num_traits: usize,
)
    requires
        spec_select_tree_prior(prior_tag, prior_params) is Ok,
        spec_map_calibrations(tip_names, cals) is Err,
    ensures
        spec_build_config(prior_tag, prior_params, cals, decls, steps, tip_names, num_traits)
            == Err::<DyrConfigValue, ErrorModel>(spec_map_calibrations(tip_names, cals)->Err_0),
{
}

impl Manifest {
    /// Compiles the manifest into a validated configuration, given the
    /// ordered tip list the external data loader produced and the trait
    /// count it reports; see [`spec_build_config`]. The pass fails fast:
    /// the first invalid input aborts it and nothing after that input is
    /// processed.
    pub fn build_config(&self, tips: Vec<String>, num_traits: usize) -> (r: Result<
        DyrConfig,
        ConfigError,
    >)
        ensures
            (match r {
                Ok(c) => spec_build_config(
                    self.priors.tree.0@,
                    self.priors.tree.1@,
                    self.calibrations.deep_view(),
                    self.constraints.deep_view(),
                    self.mcmc.steps,
                    tips.deep_view(),
                    num_traits,
                ) == Ok::<DyrConfigValue, ErrorModel>(c@),
                Err(e) => spec_build_config(
                    self.priors.tree.0@,
                    self.priors.tree.1@,
                    self.calibrations.deep_view(),
                    self.constraints.deep_view(),
                    self.mcmc.steps,
                    tips.deep_view(),
                    num_traits,
                ) == Err::<DyrConfigValue, ErrorModel>(e@),
            }),
    {
        let tree_prior = match select_tree_prior(&self.priors.tree.0, &self.priors.tree.1) {
            Ok(p) => p,
            Err(e) => return Err(e),
        };
        let reg = TaxonRegistry::new(tips);
        let calibrations = match map_calibrations(&reg, &self.calibrations) {
            Ok(v) => v,
            Err(e) => return Err(e),
        };
        let constraints = match resolve_constraints(&reg, &self.constraints) {
            Ok(v) => v,
            Err(e) => return Err(e),
        };
        let tip_names = reg.into_names();
        Ok(
            DyrConfig {
                steps: self.mcmc.steps,
                model: Configuration {
                    tree: TreeModel {
                        prior: tree_prior,
                        data: TreeData { num_traits, tips: tip_names },
                        calibrations,
                        constraints,
                    },
                    traits: default_traits_model(),
                },
            },
        )
    }
}

} // verus!
