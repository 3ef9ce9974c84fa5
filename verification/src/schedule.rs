//! Per-step reporting decisions of the driver loop.
//!
//! The driver alternates engine steps with output; which outputs a step
//! owes is decided here, from the step index and the manifest's chain
//! settings, so the loop itself stays free of logic.

use vstd::prelude::*;

use crate::manifest::MChain;

verus! {

/// Steps before tree snapshots begin.
pub const SNAPSHOT_BURNIN: usize = 28_000_000;

/// Stride between tree snapshots once the burn-in has passed.
pub const SNAPSHOT_STRIDE: usize = 1000;

/// Phase within the stride at which a snapshot is due.
pub const SNAPSHOT_PHASE: usize = 3;

/// Which outputs step `i` owes.
#[derive(Clone, Copy, PartialEq, Eq, Structural, Debug)]
pub struct StepReport {
    /// Print the chain likelihoods this step.
    pub print: bool,
    /// Dump the chain parameterisation this step.
    pub dump: bool,
    /// Snapshot the tree this step.
    pub snapshot: bool,
}

/// Decides the outputs step `i` owes: likelihoods every `print` steps
/// starting at step zero, a parameter dump at the end of every `dump`
/// steps, and a tree snapshot on the snapshot phase once the burn-in has
/// passed.
pub fn step_report(i: usize, chain: &MChain) -> (r: StepReport)
    requires
        chain.print > 0,
        chain.dump > 0,
        i < usize::MAX,
    ensures
        r.print == (i % chain.print == 0),
        r.dump == ((i + 1) % (chain.dump as int) == 0),
        r.snapshot == (i > SNAPSHOT_BURNIN && i % SNAPSHOT_STRIDE == SNAPSHOT_PHASE),
{
    StepReport {
        print: i % chain.print == 0,
        dump: (i + 1) % chain.dump == 0,
        snapshot: i > SNAPSHOT_BURNIN && i % SNAPSHOT_STRIDE == SNAPSHOT_PHASE,
    }
}

} // verus!
