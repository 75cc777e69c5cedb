//! Failures of the simulation driver.

use vstd::prelude::*;

verus! {

/// A driver failure: an undefined numeric operation, a missing or doubly
/// set tuning entry, a run that stops making progress, or a failure the
/// injected evaluation capability reported, passed through unchanged.
#[derive(Debug, Clone, PartialEq, Eq)]
pub enum SimError {
    Domain,
    Configuration,
    NonConvergent,
    Eval(String),
}

} // verus!
