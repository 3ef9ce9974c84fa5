//! Compiler from a declarative run manifest to a validated phylogenetic
//! run configuration.
//!
//! The manifest names an ordered tip list, age calibrations, a tree prior
//! and a list of named, possibly interdependent clade constraints. This
//! crate assigns stable tip identifiers, selects the prior, resolves the
//! calibrations and the constraint graph, and assembles the immutable
//! configuration that a driver hands to an external inference engine. The
//! whole pass either succeeds completely or fails fast at the first
//! invalid input.

pub mod calibrate;
pub mod config;
pub mod error;
pub mod manifest;
pub mod prior;
pub mod registry;
pub mod resolve;
pub mod schedule;
