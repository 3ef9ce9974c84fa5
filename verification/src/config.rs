//! The configuration value handed to the inference engine, and the model
//! types it is assembled from.
//!
//! Real-valued manifest parameters are carried as [`Real`] values: the
//! compiler validates, selects and copies them but never does arithmetic
//! on them, so each one travels through the pass exactly as it arrived.

use vstd::prelude::*;

verus! {

/// A real-valued manifest parameter, carried as its IEEE-754 double bit
/// pattern.
///
/// The compiler never computes with real values, it only moves them, so
/// the bit pattern keeps every parameter exact. `rounded` is the value's
/// nearest integer (half away from zero, clamped to `usize`), supplied by
/// the caller when the manifest is decoded; the coalescent prior's
/// interval count is taken from it.
#[derive(Clone, Copy, PartialEq, Eq, Structural, Debug)]
pub struct Real {
    pub bits: u64,
    pub rounded: usize,
}

impl View for Real {
    type V = Real;

    open spec fn view(&self) -> Real {
        *self
    }
}

impl DeepView for Real {
    type V = Real;

    open spec fn deep_view(&self) -> Real {
        *self
    }
}

/// A prior distribution over a single model parameter.
#[derive(Clone, Copy, PartialEq, Eq, Structural, Debug)]
pub enum PriorDist {
    Uniform { low: Real, high: Real },
    Exponential { l: Real },
    Reciprocal,
}

/// The prior over the tree: either a bounded-uniform prior on the root
/// age, or a coalescent prior with a fixed number of intervals.
#[derive(Clone, Copy, PartialEq, Eq, Structural, Debug)]
pub enum TreePrior {
    Uniform { root: PriorDist },
    Coalescent { num_intervals: usize },
}

/// An age calibration: a lower and an upper bound on a tip's age. The
/// compiler pairs it with the calibrated tip's id; it does not check that
/// `low <= high`.
#[derive(Clone, Copy, PartialEq, Eq, Structural, Debug)]
pub struct Calibration {
    pub low: Real,
    pub high: Real,
}

/// A resolved constraint: a duplicate-free list of tip ids (the clade)
/// and, for an ancestry constraint, the id of the tip asserted to be the
/// clade's direct ancestor. The ancestor is always a direct taxon lookup,
/// never the result of expanding a declaration reference.
#[derive(Clone, Debug)]
pub struct Constraint {
    pub tips: Vec<usize>,
    pub ancestor: Option<usize>,
}

/// Mathematical value of a [`Constraint`].
pub struct ConstraintModel {
    pub tips: Seq<usize>,
    pub ancestor: Option<usize>,
}

impl View for Constraint {
    type V = ConstraintModel;

    open spec fn view(&self) -> ConstraintModel {
        ConstraintModel { tips: self.tips@, ancestor: self.ancestor }
    }
}

impl DeepView for Constraint {
    type V = ConstraintModel;

    open spec fn deep_view(&self) -> ConstraintModel {
        self.view()
    }
}

/// The substitution model for binary trait data.
#[derive(Clone, Copy, PartialEq, Eq, Structural, Debug)]
pub enum SubstitutionModel {
    BinaryGTR { pi_one: PriorDist },
}

/// Among-site rate variation settings.
#[derive(Clone, Copy, PartialEq, Eq, Structural, Debug)]
pub struct ASRV {
    pub enabled: bool,
    pub shape: PriorDist,
    pub ncats: usize,
}

/// Among-branch rate variation settings.
#[derive(Clone, Copy, PartialEq, Eq, Structural, Debug)]
pub struct ABRV {
    pub enabled: bool,
    pub shape: PriorDist,
}

/// The trait-evolution half of the configuration: priors on the
/// substitution-model parameters. The compiler always emits the same
/// fixed structure, built by [`default_traits_model`].
#[derive(Clone, Copy, PartialEq, Eq, Structural, Debug)]
pub struct TraitsModel {
    pub num_traits: PriorDist,
    pub subst: SubstitutionModel,
    pub base: PriorDist,
    pub asrv: ASRV,
    pub abrv: ABRV,
}

/// The tip-data handle the engine works from: the trait count and the
/// ordered tip names. Tip ids are positions in `tips`, counted from one.
#[derive(Clone, Debug)]
pub struct TreeData {
    pub num_traits: usize,
    pub tips: Vec<String>,
}

/// Mathematical value of a [`TreeData`].
pub struct TreeDataModel {
    pub num_traits: usize,
    pub tips: Seq<Seq<char>>,
}

impl View for TreeData {
    type V = TreeDataModel;

    open spec fn view(&self) -> TreeDataModel {
        TreeDataModel { num_traits: self.num_traits, tips: self.tips.deep_view() }
    }
}

/// The tree half of the configuration: prior, data handle, calibrations
/// and resolved constraints.
#[derive(Clone, Debug)]
pub struct TreeModel {
    pub prior: TreePrior,
    pub data: TreeData,
    pub calibrations: Vec<(usize, Calibration)>,
    pub constraints: Vec<Constraint>,
}

/// Mathematical value of a [`TreeModel`].
pub struct TreeModelValue {
    pub prior: TreePrior,
    pub data: TreeDataModel,
    pub calibrations: Seq<(usize, Calibration)>,
    pub constraints: Seq<ConstraintModel>,
}

impl View for TreeModel {
    type V = TreeModelValue;

    open spec fn view(&self) -> TreeModelValue {
        TreeModelValue {
            prior: self.prior,
            data: self.data@,
            calibrations: self.calibrations@,
            constraints: self.constraints.deep_view(),
        }
    }
}

/// The complete, validated model configuration.
#[derive(Clone, Debug)]
pub struct Configuration {
    pub tree: TreeModel,
    pub traits: TraitsModel,
}

/// Mathematical value of a [`Configuration`].
pub struct ConfigurationValue {
    pub tree: TreeModelValue,
    pub traits: TraitsModel,
}

impl View for Configuration {
    type V = ConfigurationValue;

    open spec fn view(&self) -> ConfigurationValue {
        ConfigurationValue { tree: self.tree@, traits: self.traits }
    }
}

/// The full output of a build pass: the model configuration plus the
/// chain length the driver runs for.
#[derive(Clone, Debug)]
pub struct DyrConfig {
    pub steps: usize,
    pub model: Configuration,
}

/// Mathematical value of a [`DyrConfig`].
pub struct DyrConfigValue {
    pub steps: usize,
    pub model: ConfigurationValue,
}

impl View for DyrConfig {
    type V = DyrConfigValue;

    open spec fn view(&self) -> DyrConfigValue {
        DyrConfigValue { steps: self.steps, model: self.model@ }
    }
}

/// Bit pattern of the IEEE-754 double with value zero.
pub const BITS_ZERO: u64 = 0;

/// Bit pattern of the IEEE-754 double with value one.
pub const BITS_ONE: u64 = 0x3FF0_0000_0000_0000;

/// Bit pattern of the IEEE-754 double with value five halves, the default
/// rate of the exponential priors on the rate-variation shape parameters.
pub const BITS_FIVE_HALVES: u64 = 0x4004_0000_0000_0000;

/// Number of discrete rate categories used for among-site rate variation.
pub const ASRV_NCATS: usize = 4;

/// The fixed trait-evolution hyperparameters every configuration gets: a
/// binary substitution model with a uniform base-frequency prior,
/// reciprocal priors on the trait count and the overall rate, and
/// among-site and among-branch rate variation with exponential shape
/// priors.
pub open spec fn spec_default_traits_model() -> TraitsModel {
    TraitsModel {
        num_traits: PriorDist::Reciprocal,
        subst: SubstitutionModel::BinaryGTR {
            pi_one: PriorDist::Uniform {
                low: Real { bits: BITS_ZERO, rounded: 0 },
                high: Real { bits: BITS_ONE, rounded: 1 },
            },
        },
        base: PriorDist::Reciprocal,
        asrv: ASRV {
            enabled: true,
            shape: PriorDist::Exponential { l: Real { bits: BITS_FIVE_HALVES, rounded: 3 } },
            ncats: ASRV_NCATS,
        },
        abrv: ABRV {
            enabled: true,
            shape: PriorDist::Exponential { l: Real { bits: BITS_FIVE_HALVES, rounded: 3 } },
        },
    }
}

/// Builds the fixed trait-evolution hyperparameters; see
/// [`spec_default_traits_model`].
pub fn default_traits_model() -> (t: TraitsModel)
    ensures
        t == spec_default_traits_model(),
{
    TraitsModel {
        num_traits: PriorDist::Reciprocal,
        subst: SubstitutionModel::BinaryGTR {
            pi_one: PriorDist::Uniform {
                low: Real { bits: BITS_ZERO, rounded: 0 },
                high: Real { bits: BITS_ONE, rounded: 1 },
            },
        },
        base: PriorDist::Reciprocal,
        asrv: ASRV {
            enabled: true,
            shape: PriorDist::Exponential { l: Real { bits: BITS_FIVE_HALVES, rounded: 3 } },
            ncats: ASRV_NCATS,
        },
        abrv: ABRV {
            enabled: true,
            shape: PriorDist::Exponential { l: Real { bits: BITS_FIVE_HALVES, rounded: 3 } },
        },
    }
}

} // verus!
