//! Result records of simulation steps.

use vstd::prelude::*;
use crate::lognum::{LogNum, LogVal};
use crate::config::TheoryType;
use crate::var_buy::VarBuy;

verus! {

/// One single-step simulation outcome: the resource amounts around the
/// step, its rate summaries, the strategy that ran, the elapsed time and
/// the purchases made. All scalars are log numbers.
#[derive(Debug, Clone)]
pub struct SimResult {
    pub theory: TheoryType,
    pub sigma: i64,
    pub last_pub: LogNum,
    pub pub_rho: LogNum,
    pub delta_tau: LogNum,
    pub pub_multi: LogNum,
    pub strat: String,
    pub tau_h: LogNum,
    pub time: LogNum,
    pub bought_vars: Vec<VarBuy>,
}

/// The documented placeholder record of an unevaluated step: everything
/// at one (or zero for the hourly rate), the marker strategy label, and
/// no purchases.
pub open spec fn spec_is_placeholder(r: SimResult) -> bool {
    &&& r.theory == TheoryType::T1
    &&& r.sigma == 0
    &&& r.last_pub@ == (LogVal::Fin { neg: false, mag: 0 })
    &&& r.pub_rho@ == (LogVal::Fin { neg: false, mag: 0 })
    &&& r.delta_tau@ == (LogVal::Fin { neg: false, mag: 0 })
    &&& r.pub_multi@ == (LogVal::Fin { neg: false, mag: 0 })
    &&& r.strat@ == "Result undefined"@
    &&& r.tau_h@ == LogVal::Zero
    &&& r.time@ == (LogVal::Fin { neg: false, mag: 0 })
    &&& r.bought_vars@.len() == 0
}

impl Default for SimResult {
    /// The placeholder record an unevaluated step carries.
    fn default() -> (r: SimResult)
        ensures
            spec_is_placeholder(r),
    {
        SimResult {
            theory: TheoryType::T1,
            sigma: 0,
            last_pub: LogNum::one(),
            pub_rho: LogNum::one(),
            delta_tau: LogNum::one(),
            pub_multi: LogNum::one(),
            strat: "Result undefined".to_owned(),
            tau_h: LogNum::zero(),
            time: LogNum::one(),
            bought_vars: Vec::new(),
        }
    }
}

/// One aggregate outcome per qualifying category: the records of the
/// active and idle runs and their efficiency ratio.
#[derive(Debug, Clone)]
pub struct SimAllResult {
    pub theory: TheoryType,
    pub ratio: LogNum,
    pub last_pub: LogNum,
    pub active: SimResult,
    pub idle: SimResult,
}

} // verus!
