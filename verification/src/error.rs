//! The error taxonomy of the build pass.
//!
//! Every error is fatal: the pass stops at the first invalid input and no
//! partial configuration is ever produced.

use vstd::prelude::*;

verus! {

/// Why a build pass failed. Variants that blame a manifest entry carry
/// the offending name or tag for diagnostics.
#[derive(Clone, Debug)]
pub enum ConfigError {
    /// The manifest or the trait-data file could not be read.
    UnreadableInput,
    /// The manifest text does not match the manifest schema.
    MalformedManifest,
    /// The tree-prior tag is unrecognised, or its parameter list has the
    /// wrong length; `expected` is the required length for a recognised
    /// tag and `None` for an unrecognised one.
    InvalidPrior { tag: String, expected: Option<usize> },
    /// A calibration or an ancestor tag does not name a known taxon.
    UnknownTaxon { name: String },
    /// A clade tag names neither a known taxon nor an already-resolved
    /// earlier declaration; `constraint` is the declaration it appears in.
    UnresolvedTag { constraint: String, tag: String },
    /// The trait data cannot be converted into usable tip partials.
    UnsupportedData,
}

/// Mathematical value of a [`ConfigError`].
pub enum ErrorModel {
    UnreadableInput,
    MalformedManifest,
    InvalidPrior { tag: Seq<char>, expected: Option<usize> },
    UnknownTaxon { name: Seq<char> },
    UnresolvedTag { constraint: Seq<char>, tag: Seq<char> },
    UnsupportedData,
}

impl View for ConfigError {
    type V = ErrorModel;

    open spec fn view(&self) -> ErrorModel {
        match self {
            ConfigError::UnreadableInput => ErrorModel::UnreadableInput,
            ConfigError::MalformedManifest => ErrorModel::MalformedManifest,
            ConfigError::InvalidPrior { tag, expected } => (ErrorModel::InvalidPrior {
                tag: tag@,
                expected: *expected,
            }),
            ConfigError::UnknownTaxon { name } => (ErrorModel::UnknownTaxon { name: name@ }),
            ConfigError::UnresolvedTag { constraint, tag } => (ErrorModel::UnresolvedTag {
                constraint: constraint@,
                tag: tag@,
            }),
            ConfigError::UnsupportedData => ErrorModel::UnsupportedData,
        }
    }
}

/// The mathematical value of a fallible result: the payload as it is,
/// the error replaced by its model.
pub open spec fn result_model<T>(r: Result<T, ConfigError>) -> Result<T, ErrorModel> {
    match r {
        Ok(v) => Ok(v),
        Err(e) => Err(e@),
    }
}

/// The one-line diagnostic for an error; see [`ConfigError::message`].
pub open spec fn spec_message(e: ErrorModel) -> Seq<char> {
    match e {
        ErrorModel::UnreadableInput => "Could not read input file"@,
        ErrorModel::MalformedManifest => "Could not parse manifest"@,
        ErrorModel::InvalidPrior { tag, expected } => {
            if expected == Some(2usize) {
                tag + " prior expects two arguments."@
            } else if expected == Some(1usize) {
                tag + " prior expects one argument."@
            } else {
                "Unrecognised prior: "@ + tag
            }
        },
        ErrorModel::UnknownTaxon { name } => "No such tip: "@ + name,
        ErrorModel::UnresolvedTag { constraint, tag } => {
            "Could not understand: "@ + tag + " in constraint "@ + constraint
        },
        ErrorModel::UnsupportedData => "Could not build tip partials"@,
    }
}

impl ConfigError {
    /// Renders the single diagnostic line shown to the user before the
    /// build aborts.
    pub fn message(&self) -> (m: String)
        ensures
            m@ == spec_message(self@),
    {
        match self {
            ConfigError::UnreadableInput => String::from_str("Could not read input file"),
            ConfigError::MalformedManifest => String::from_str("Could not parse manifest"),
            ConfigError::InvalidPrior { tag, expected } => {
                match expected {
                    Some(n) if *n == 2usize => tag.clone().concat(" prior expects two arguments."),
                    Some(n) if *n == 1usize => tag.clone().concat(" prior expects one argument."),
                    _ => String::from_str("Unrecognised prior: ").concat(tag.as_str()),
                }
            },
            ConfigError::UnknownTaxon { name } => {
                String::from_str("No such tip: ").concat(name.as_str())
            },
            ConfigError::UnresolvedTag { constraint, tag } => {
                String::from_str("Could not understand: ").concat(tag.as_str()).concat(
                    " in constraint ",
                ).concat(constraint.as_str())
            },
            ConfigError::UnsupportedData => String::from_str("Could not build tip partials"),
        }
    }
}

} // verus!
