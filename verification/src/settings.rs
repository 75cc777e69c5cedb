//! User-facing simulation settings.

use vstd::prelude::*;

verus! {

/// Which strategy profiles an aggregate simulation runs per category.
#[derive(Debug, Clone, Copy, PartialEq, Eq, Structural)]
pub enum SimAllStrats {
    All,
    Active,
    Idle,
}

/// How completed long-run categories are treated.
#[derive(Debug, Clone, Copy, PartialEq, Eq, Structural)]
pub enum CompletedCTs {
    In,
    End,
    No,
}

/// The settings bag a query carries. The time granularities `dt` and
/// `ddt` are fixed-point scalars in `fixedlog::SCALE` units.
#[derive(Debug, Clone)]
pub struct SimSettings {
    pub dt: i64,
    pub ddt: i64,
    pub mf_reset_depth: i32,
    pub bought_vars_delta: i32,
    pub sim_all_strats: SimAllStrats,
    pub completed_cts: CompletedCTs,
    pub show_a23: bool,
    pub show_unofficials: bool,
}

} // verus!
