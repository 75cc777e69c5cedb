//! The simulation driver.
//!
//! Each call is a pure function of its query, the already-loaded tuning
//! configuration, and an injected evaluation capability that runs one
//! strategy step per call. The driver validates every step it takes: a
//! chained run must strictly grow the resource amount and both looping
//! drivers carry a defensive iteration bound, so a capability that stops
//! making progress yields a non-convergence error instead of a hang.

use vstd::prelude::*;
use crate::lognum::{
    LogNum, LogVal, spec_add, spec_div, spec_mul, spec_lt, spec_le, spec_pow_scaled,
    spec_pow_err, spec_log10_val, spec_from_int,
};
use crate::errors::SimError;
use crate::config::{Config, TheoryType, spec_tau_lookup, spec_theory_from_index};
use crate::settings::{SimSettings, SimAllStrats, CompletedCTs};
use crate::result::{SimResult, SimAllResult, spec_is_placeholder};

verus! {

/// Defensive bound on the iterations of a chained or fixed-step run,
/// independent of the mathematical convergence criterion.
pub const MAX_SIM_STEPS: usize = 10_000;

/// One single-step evaluation request.
#[derive(Debug, Clone)]
pub struct SingleSimQuery {
    pub theory: TheoryType,
    pub strat: String,
    pub sigma: i64,
    pub rho: LogNum,
    pub cap: Option<LogNum>,
    pub last_strat: Option<String>,
    pub settings: SimSettings,
}

/// A chained simulation request: iterate to a cap.
#[derive(Debug, Clone)]
pub struct ChainSimQuery {
    pub theory: TheoryType,
    pub strat: String,
    pub sigma: i64,
    pub rho: LogNum,
    pub cap: LogNum,
    pub hard_cap: bool,
    pub settings: SimSettings,
}

/// A fixed-step simulation request: advance by a constant factor.
#[derive(Debug, Clone)]
pub struct StepSimQuery {
    pub theory: TheoryType,
    pub strat: String,
    pub sigma: i64,
    pub rho: LogNum,
    pub cap: LogNum,
    pub step: LogNum,
    pub settings: SimSettings,
}

/// A multi-category aggregate request: one threshold per category
/// position.
#[derive(Debug, Clone)]
pub struct SimAllQuery {
    pub values: Vec<LogNum>,
    pub sigma: i64,
    pub very_active: bool,
    pub semi_idle: bool,
    pub settings: SimSettings,
}

/// Any simulation request.
#[derive(Debug, Clone)]
pub enum SimQuery {
    Single(SingleSimQuery),
    Chain(ChainSimQuery),
    Step(StepSimQuery),
    All(SimAllQuery),
}

/// The response to a single-step request.
#[derive(Debug, Clone)]
pub struct SingleSimResponse {
    pub result: SimResult,
}

/// The response to a chained request: the step records, the derived tail
/// growth rate, the average rate per hour, and the total elapsed time.
#[derive(Debug, Clone)]
pub struct ChainSimResponse {
    pub results: Vec<SimResult>,
    pub delta_tau: LogNum,
    pub average_rate: LogNum,
    pub total_time: LogNum,
}

/// The response to a fixed-step request.
#[derive(Debug, Clone)]
pub struct StepSimResponse {
    pub results: Vec<SimResult>,
}

/// The response to an aggregate request.
#[derive(Debug, Clone)]
pub struct SimAllResponse {
    pub sigma: i64,
    pub strat_type: SimAllStrats,
    pub completed_cts: CompletedCTs,
    pub results: Vec<SimAllResult>,
}

/// Any simulation response.
#[derive(Debug, Clone)]
pub enum SimResponse {
    Single(SingleSimResponse),
    Chain(ChainSimResponse),
    Step(StepSimResponse),
    All(SimAllResponse),
}

/// The per-category strategy engine the driver calls through. It is an
/// external capability: the driver assumes nothing of what it returns and
/// validates every outcome itself, and a failure it reports propagates
/// out of the run unchanged.
pub trait Evaluator {
    /// Runs one strategy step from the query's starting amount.
    fn evaluate(&self, query: &SingleSimQuery) -> Result<SimResult, SimError>;
}

/// The running amount after a prefix of chained steps: the last record's
/// ending amount, or the starting amount before any step.
pub open spec fn spec_chain_final(rho0: LogVal, rs: Seq<SimResult>) -> LogVal {
    if rs.len() == 0 {
        rho0
    } else {
        rs[rs.len() - 1].pub_rho@
    }
}

/// The amount a chained step started from: the previous record's ending
/// amount, or the starting amount for the first step.
pub open spec fn spec_chain_prior(rho0: LogVal, rs: Seq<SimResult>, i: int) -> LogVal {
    if i == 0 {
        rho0
    } else {
        rs[i - 1].pub_rho@
    }
}

/// Every chained step strictly grew the running amount.
pub open spec fn spec_chain_progress(rho0: LogVal, rs: Seq<SimResult>) -> bool {
    forall|i: int|
        0 <= i < rs.len() ==> spec_lt(spec_chain_prior(rho0, rs, i), #[trigger] rs[i].pub_rho@)
}

/// Every chained step started strictly below the cap.
pub open spec fn spec_chain_below_cap(rho0: LogVal, rs: Seq<SimResult>, cap: LogVal) -> bool {
    forall|i: int|
        0 <= i < rs.len() ==> spec_lt(#[trigger] spec_chain_prior(rho0, rs, i), cap)
}

/// A run that recorded a step, or whose running amount still sits below
/// the cap, must have started below the cap.
proof fn lemma_chain_start_below(rho0: LogVal, rs: Seq<SimResult>, cap: LogVal)
    requires
        spec_chain_below_cap(rho0, rs, cap),
        spec_lt(spec_chain_final(rho0, rs), cap) || rs.len() > 0,
    ensures
        spec_lt(rho0, cap),
{
    if rs.len() > 0 {
        assert(spec_lt(spec_chain_prior(rho0, rs, 0), cap));
    }
}

/// The elapsed time accumulated over the step records, in log-domain
/// addition starting from zero.
pub open spec fn spec_time_sum(rs: Seq<SimResult>) -> LogVal
    decreases rs.len(),
{
    if rs.len() == 0 {
        LogVal::Zero
    } else {
        spec_add(spec_time_sum(rs.drop_last()), rs[rs.len() - 1].time@)
    }
}

/// Validates one chained step: the ending amount must strictly exceed
/// the amount the step started from, or the run is declared
/// non-convergent.
pub fn chain_advance(rho: LogNum, res_rho: LogNum) -> (r: Result<LogNum, SimError>)
    ensures
        spec_lt(rho@, res_rho@) ==> r == Result::<LogNum, SimError>::Ok(res_rho),
        !spec_lt(rho@, res_rho@) ==> r == Result::<LogNum, SimError>::Err(
            SimError::NonConvergent,
        ),
{
    if rho.lt(&res_rho) {
        Result::Ok(res_rho)
    } else {
        Result::Err(SimError::NonConvergent)
    }
}

/// Runs one evaluation step and wraps its record; the capability's own
/// failures pass through unchanged.
pub fn single_sim<E: Evaluator>(eval: &E, query: &SingleSimQuery) -> Result<
    SingleSimResponse,
    SimError,
> {
    match eval.evaluate(query) {
        Result::Ok(result) => Result::Ok(SingleSimResponse { result }),
        Result::Err(e) => Result::Err(e),
    }
}

/// One pushed record keeps every chained step strictly growing: the old
/// records are unchanged and the new record grew from the old running
/// amount.
#[verifier::rlimit(50)]
proof fn lemma_chain_push_progress(
    rho0: LogVal,
    old_rs: Seq<SimResult>,
    rs: Seq<SimResult>,
    res: SimResult,
    old_rho: LogVal,
)
    requires
        rs == old_rs.push(res),
        old_rho == spec_chain_final(rho0, old_rs),
        spec_chain_progress(rho0, old_rs),
        spec_lt(old_rho, res.pub_rho@),
    ensures
        spec_chain_progress(rho0, rs),
        spec_chain_final(rho0, rs) == res.pub_rho@,
{
    assert(rs[rs.len() - 1] == res);
    assert forall|i: int|
        0 <= i < rs.len() implies spec_lt(
        spec_chain_prior(rho0, rs, i),
        #[trigger] rs[i].pub_rho@,
    ) by {
        if i < rs.len() - 1 {
            assert(rs[i] == old_rs[i]);
            if i > 0 {
                assert(rs[i - 1] == old_rs[i - 1]);
            }
            assert(spec_lt(spec_chain_prior(rho0, old_rs, i), old_rs[i].pub_rho@));
        } else {
            if i > 0 {
                assert(rs[i - 1] == old_rs[i - 1]);
                assert(old_rho == old_rs[i - 1].pub_rho@);
            }
            assert(spec_lt(old_rho, res.pub_rho@));
        }
    }
}

/// One pushed record keeps every chained step starting below the cap,
/// since the new record started from the old running amount, which the
/// loop saw below the cap.
#[verifier::rlimit(50)]
proof fn lemma_chain_push_below(
    rho0: LogVal,
    cap: LogVal,
    old_rs: Seq<SimResult>,
    rs: Seq<SimResult>,
    res: SimResult,
    old_rho: LogVal,
)
    requires
        rs == old_rs.push(res),
        old_rho == spec_chain_final(rho0, old_rs),
        spec_chain_below_cap(rho0, old_rs, cap),
        spec_lt(old_rho, cap),
    ensures
        spec_chain_below_cap(rho0, rs, cap),
{
    assert(rs[rs.len() - 1] == res);
    assert forall|i: int|
        0 <= i < rs.len() implies spec_lt(#[trigger] spec_chain_prior(rho0, rs, i), cap) by {
        if i < rs.len() - 1 {
            if i > 0 {
                assert(rs[i - 1] == old_rs[i - 1]);
            }
            assert(spec_lt(spec_chain_prior(rho0, old_rs, i), cap));
        } else {
            if i > 0 {
                assert(rs[i - 1] == old_rs[i - 1]);
                assert(old_rho == old_rs[i - 1].pub_rho@);
            }
            assert(spec_lt(old_rho, cap));
        }
    }
}

/// Everything a successful chained response guarantees: a bounded run of
/// strictly growing steps that all started below the cap, the running
/// amount at or past the cap afterwards, the time fold, and the derived
/// tail rate under the configured tuning exponent.
pub open spec fn spec_chain_ok(q: ChainSimQuery, config: Config, resp: ChainSimResponse) -> bool {
    &&& resp.results@.len() <= MAX_SIM_STEPS
    &&& spec_chain_progress(q.rho@, resp.results@)
    &&& spec_chain_below_cap(q.rho@, resp.results@, q.cap@)
    &&& !spec_lt(spec_chain_final(q.rho@, resp.results@), q.cap@)
    &&& resp.total_time@ == spec_time_sum(resp.results@)
    &&& (spec_tau_lookup(config.theories@, q.theory) matches Some(tf) && tf != i64::MIN
        && !spec_pow_err(
        spec_div(spec_chain_final(q.rho@, resp.results@), q.rho@),
        tf as int,
    ) && resp.delta_tau@ == spec_pow_scaled(
        spec_div(spec_chain_final(q.rho@, resp.results@), q.rho@),
        tf as int,
    ))
    &&& resp.average_rate@ == spec_div(
        spec_log10_val(resp.delta_tau@),
        spec_div(resp.total_time@, spec_from_int(3600)),
    )
}

/// Whether a chained run that takes no step succeeds: the category has a
/// tuning entry whose exponent the power operation accepts.
pub open spec fn spec_chain_no_work_ok(q: ChainSimQuery, config: Config) -> bool {
    spec_tau_lookup(config.theories@, q.theory) matches Some(tf) && tf != i64::MIN
        && !spec_pow_err(spec_div(q.rho@, q.rho@), tf as int)
}

/// Chained simulation: repeat single-step evaluation, feeding each step's
/// ending amount to the next step, until the running amount reaches the
/// cap. Each step must strictly grow the amount; after the loop the tail
/// growth rate is the total growth raised to the category's configured
/// tuning exponent, and the average rate divides its logarithm by the
/// total time in hours. On a run that never calls the evaluator, success
/// is decided by the tuning lookup alone, and a missing entry is named a
/// configuration error.
#[verifier::rlimit(100)]
pub fn chain_sim<E: Evaluator>(eval: &E, query: &ChainSimQuery, config: &Config) -> (r: Result<
    ChainSimResponse,
    SimError,
>)
    ensures
        (r matches Ok(resp) ==> spec_chain_ok(*query, *config, resp)),
        !spec_lt(query.rho@, query.cap@) ==> ((r is Ok) == spec_chain_no_work_ok(
            *query,
            *config,
        )),
        !spec_lt(query.rho@, query.cap@) && spec_tau_lookup(config.theories@, query.theory)
            is None ==> r == Result::<ChainSimResponse, SimError>::Err(SimError::Configuration),
{
    let mut rho = query.rho;
    let mut time = LogNum::zero();
    let mut last_strat = String::new();
    let mut results: Vec<SimResult> = Vec::new();
    let mut steps: usize = 0;
    while rho.lt(&query.cap)
        invariant
            steps == results@.len(),
            steps <= MAX_SIM_STEPS,
            rho@ == spec_chain_final(query.rho@, results@),
            spec_chain_progress(query.rho@, results@),
            spec_chain_below_cap(query.rho@, results@, query.cap@),
            time@ == spec_time_sum(results@),
        decreases MAX_SIM_STEPS - steps,
    {
        proof {
            lemma_chain_start_below(query.rho@, results@, query.cap@);
        }
        if steps >= MAX_SIM_STEPS {
            return Result::Err(SimError::NonConvergent);
        }
        let sq = SingleSimQuery {
            theory: query.theory,
            strat: query.strat.clone(),
            sigma: query.sigma,
            rho,
            cap: if query.hard_cap {
                Option::Some(query.cap)
            } else {
                Option::None
            },
            last_strat: Option::Some(last_strat.clone()),
            settings: query.settings.clone(),
        };
        let res = match eval.evaluate(&sq) {
            Result::Ok(res) => res,
            Result::Err(e) => return Result::Err(e),
        };
        let new_rho = match chain_advance(rho, res.pub_rho) {
            Result::Ok(v) => v,
            Result::Err(e) => return Result::Err(e),
        };
        let ghost old_time = time@;
        time = time.add(res.time);
        last_strat = crate::text::first_word(res.strat.as_str());
        let ghost old_rho = rho@;
        rho = new_rho;
        let ghost old_results = results@;
        results.push(res);
        steps = steps + 1;
        proof {
            assert(results@.drop_last() =~= old_results);
            assert(results@[results@.len() - 1] == res);
            assert(time@ == spec_time_sum(results@));
            lemma_chain_push_progress(query.rho@, old_results, results@, res, old_rho);
            lemma_chain_push_below(query.rho@, query.cap@, old_results, results@, res, old_rho);
        }
    }
    proof {
        if results@.len() > 0 {
            lemma_chain_start_below(query.rho@, results@, query.cap@);
        }
    }
    let tau = match config.tau_factor(query.theory) {
        Option::Some(tf) => tf,
        Option::None => return Result::Err(SimError::Configuration),
    };
    if tau == i64::MIN {
        return Result::Err(SimError::Domain);
    }
    let delta_tau = match rho.div(query.rho).pow_scaled(tau) {
        Result::Ok(v) => v,
        Result::Err(_) => return Result::Err(SimError::Domain),
    };
    let average_rate = delta_tau.log10().div(time.div(LogNum::from_int(3600)));
    Result::Ok(ChainSimResponse { results, delta_tau, average_rate, total_time: time })
}

/// The running amount of a fixed-step run after `n` multiplicative
/// advances.
pub open spec fn spec_step_rho(rho0: LogVal, step: LogVal, n: nat) -> LogVal
    decreases n,
{
    if n == 0 {
        rho0
    } else {
        spec_mul(spec_step_rho(rho0, step, (n - 1) as nat), step)
    }
}

/// The fixed-step stopping bound: the cap widened by one part in a
/// thousand, since multiplicative stepping generally overshoots.
pub open spec fn spec_step_bound(cap: LogVal) -> LogVal {
    spec_mul(cap, spec_div(spec_from_int(1001), spec_from_int(1000)))
}

/// Everything a successful fixed-step response guarantees: the run took
/// exactly the iterations whose stepped amounts sat below the widened
/// cap, within the defensive bound.
pub open spec fn spec_step_ok(q: StepSimQuery, resp: StepSimResponse) -> bool {
    &&& resp.results@.len() <= MAX_SIM_STEPS
    &&& !spec_lt(
        spec_step_rho(q.rho@, q.step@, resp.results@.len() as nat),
        spec_step_bound(q.cap@),
    )
    &&& (forall|k: nat|
        k < resp.results@.len() ==> spec_lt(
            #[trigger] spec_step_rho(q.rho@, q.step@, k),
            spec_step_bound(q.cap@),
        ))
}

/// Fixed-step simulation: evaluate once per iteration while the running
/// amount is below the widened cap, advancing the amount by the constant
/// step factor regardless of the evaluation's own output. A starting
/// amount already at the widened cap succeeds with no step taken.
pub fn step_sim<E: Evaluator>(eval: &E, query: &StepSimQuery) -> (r: Result<
    StepSimResponse,
    SimError,
>)
    ensures
        (r matches Ok(resp) ==> spec_step_ok(*query, resp)),
        !spec_lt(query.rho@, spec_step_bound(query.cap@)) ==> (r matches Ok(resp)
            && resp.results@.len() == 0),
{
    let bound = query.cap.mul(LogNum::from_int(1001).div(LogNum::from_int(1000)));
    let mut rho = query.rho;
    let mut last_strat = String::new();
    let mut results: Vec<SimResult> = Vec::new();
    let mut steps: usize = 0;
    while rho.lt(&bound)
        invariant
            steps == results@.len(),
            steps <= MAX_SIM_STEPS,
            bound@ == spec_step_bound(query.cap@),
            rho@ == spec_step_rho(query.rho@, query.step@, steps as nat),
            forall|k: nat|
                k < steps ==> spec_lt(
                    #[trigger] spec_step_rho(query.rho@, query.step@, k),
                    spec_step_bound(query.cap@),
                ),
        decreases MAX_SIM_STEPS - steps,
    {
        proof {
            assert(spec_step_rho(query.rho@, query.step@, 0nat) == query.rho@);
            if steps > 0 {
                assert(spec_lt(
                    spec_step_rho(query.rho@, query.step@, 0nat),
                    spec_step_bound(query.cap@),
                ));
            }
        }
        if steps >= MAX_SIM_STEPS {
            return Result::Err(SimError::NonConvergent);
        }
        let sq = SingleSimQuery {
            theory: query.theory,
            strat: query.strat.clone(),
            sigma: query.sigma,
            rho,
            cap: Option::None,
            last_strat: Option::Some(last_strat.clone()),
            settings: query.settings.clone(),
        };
        let res = match eval.evaluate(&sq) {
            Result::Ok(res) => res,
            Result::Err(e) => return Result::Err(e),
        };
        last_strat = crate::text::first_word(res.strat.as_str());
        results.push(res);
        rho = rho.mul(query.step);
        steps = steps + 1;
    }
    proof {
        assert(spec_step_rho(query.rho@, query.step@, 0nat) == query.rho@);
        if results@.len() > 0 {
            assert(spec_lt(
                spec_step_rho(query.rho@, query.step@, 0nat),
                spec_step_bound(query.cap@),
            ));
        }
    }
    Result::Ok(StepSimResponse { results })
}

/// Whether a category position qualifies for the aggregate run: the
/// position names a category and its threshold is not at or below one.
pub open spec fn spec_qual(values: Seq<LogNum>, i: int) -> bool {
    spec_theory_from_index(i) is Some && !spec_le(
        values[i]@,
        LogVal::Fin { neg: false, mag: 0 },
    )
}

/// The qualifying positions of the threshold list, in order.
pub open spec fn spec_quals(values: Seq<LogNum>) -> Seq<int>
    decreases values.len(),
{
    if values.len() == 0 {
        Seq::empty()
    } else if spec_qual(values, values.len() - 1) {
        spec_quals(values.drop_last()).push(values.len() - 1)
    } else {
        spec_quals(values.drop_last())
    }
}

/// Everything a successful aggregate response guarantees: one record per
/// qualifying position, in order, each carrying that position's category
/// and threshold; the ratio of the two rates under the full profile and
/// one otherwise; and the documented placeholder record on a side the
/// settings skipped.
pub open spec fn spec_sim_all_ok(q: SimAllQuery, resp: SimAllResponse) -> bool {
    &&& resp.results@.len() == spec_quals(q.values@).len()
    &&& (forall|j: int|
        0 <= j < resp.results@.len() ==> {
            let idx = spec_quals(q.values@)[j];
            &&& spec_theory_from_index(idx) == Option::Some(#[trigger] resp.results@[j].theory)
            &&& resp.results@[j].last_pub == q.values@[idx]
            &&& (q.settings.sim_all_strats == SimAllStrats::All ==> resp.results@[j].ratio@
                == spec_div(resp.results@[j].active.tau_h@, resp.results@[j].idle.tau_h@))
            &&& (q.settings.sim_all_strats != SimAllStrats::All ==> resp.results@[j].ratio@ == (
            LogVal::Fin { neg: false, mag: 0 }))
            &&& (q.settings.sim_all_strats == SimAllStrats::Idle ==> spec_is_placeholder(
                resp.results@[j].active,
            ))
            &&& (q.settings.sim_all_strats == SimAllStrats::Active ==> spec_is_placeholder(
                resp.results@[j].idle,
            ))
        })
    &&& resp.sigma == q.sigma
    &&& resp.strat_type == q.settings.sim_all_strats
}

/// A longer prefix of the threshold list never has fewer qualifying
/// positions.
proof fn lemma_quals_prefix_le(values: Seq<LogNum>, m: int, n: int)
    requires
        0 <= m <= n <= values.len(),
    ensures
        spec_quals(values.take(m)).len() <= spec_quals(values.take(n)).len(),
    decreases n - m,
{
    if m < n {
        lemma_quals_prefix_le(values, m, n - 1);
        assert(values.take(n).drop_last() =~= values.take(n - 1));
    }
}

/// A qualifying position anywhere in the list makes the qualifying set
/// non-empty.
proof fn lemma_qual_present(values: Seq<LogNum>, i: int)
    requires
        0 <= i < values.len(),
        spec_qual(values, i),
    ensures
        spec_quals(values).len() > 0,
{
    let p = values.take(i + 1);
    assert(p[i] == values[i]);
    assert(spec_qual(p, i));
    assert(spec_quals(p).len() > 0);
    lemma_quals_prefix_le(values, i + 1, values.len() as int);
    assert(values.take(values.len() as int) =~= values);
}

/// Multi-category aggregate simulation: for each qualifying category
/// position, run the active profile unless the settings ask for idle
/// only, run the idle profile unless they ask for active only, and
/// derive the efficiency ratio of the two rates when both ran. A list
/// with no qualifying position succeeds without calling the evaluator.
pub fn sim_all<E: Evaluator>(eval: &E, query: &SimAllQuery) -> (r: Result<
    SimAllResponse,
    SimError,
>)
    ensures
        (r matches Ok(resp) ==> spec_sim_all_ok(*query, resp)),
        spec_quals(query.values@).len() == 0 ==> r is Ok,
{
    let one = LogNum::one();
    let n = query.values.len();
    let mut results: Vec<SimAllResult> = Vec::new();
    let mut i: usize = 0;
    proof {
        assert(query.values@.take(0) =~= Seq::<LogNum>::empty());
    }
    while i < n
        invariant
            i <= n,
            n == query.values@.len(),
            one@ == (LogVal::Fin { neg: false, mag: 0 }),
            results@.len() == spec_quals(query.values@.take(i as int)).len(),
            forall|j: int|
                0 <= j < results@.len() ==> {
                    let idx = spec_quals(query.values@.take(i as int))[j];
                    &&& spec_theory_from_index(idx) == Option::Some(
                        #[trigger] results@[j].theory,
                    )
                    &&& 0 <= idx < i
                    &&& results@[j].last_pub == query.values@[idx]
                    &&& (query.settings.sim_all_strats == SimAllStrats::All ==> results@[j].ratio@
                        == spec_div(results@[j].active.tau_h@, results@[j].idle.tau_h@))
                    &&& (query.settings.sim_all_strats != SimAllStrats::All ==> results@[j].ratio@
                        == (LogVal::Fin { neg: false, mag: 0 }))
                    &&& (query.settings.sim_all_strats == SimAllStrats::Idle
                        ==> spec_is_placeholder(results@[j].active))
                    &&& (query.settings.sim_all_strats == SimAllStrats::Active
                        ==> spec_is_placeholder(results@[j].idle))
                },
        decreases n - i,
    {
        let ghost prefix = query.values@.take(i as int);
        proof {
            assert(query.values@.take(i as int + 1).drop_last() =~= prefix);
            assert(query.values@.take(i as int + 1)[i as int] == query.values@[i as int]);
        }
        let rho = query.values[i];
        let theory = match TheoryType::try_from(i) {
            Option::Some(t) => t,
            Option::None => {
                i = i + 1;
                continue;
            },
        };
        if rho.le(&one) {
            i = i + 1;
            continue;
        }
        let active_res = if !matches!(query.settings.sim_all_strats, SimAllStrats::Idle) {
            let sq = SingleSimQuery {
                theory,
                strat: if query.very_active {
                    "Best Overall".to_owned()
                } else {
                    "Best Active".to_owned()
                },
                sigma: query.sigma,
                rho,
                cap: Option::None,
                last_strat: Option::None,
                settings: query.settings.clone(),
            };
            match eval.evaluate(&sq) {
                Result::Ok(res) => res,
                Result::Err(e) => {
                    proof {
                        lemma_qual_present(query.values@, i as int);
                    }
                    return Result::Err(e);
                },
            }
        } else {
            SimResult::default()
        };
        let idle_res = if !matches!(query.settings.sim_all_strats, SimAllStrats::Active) {
            let sq = SingleSimQuery {
                theory,
                strat: if query.semi_idle {
                    "Best Semi-Idle".to_owned()
                } else {
                    "Best Idle".to_owned()
                },
                sigma: query.sigma,
                rho,
                cap: Option::None,
                last_strat: Option::None,
                settings: query.settings.clone(),
            };
            match eval.evaluate(&sq) {
                Result::Ok(res) => res,
                Result::Err(e) => {
                    proof {
                        lemma_qual_present(query.values@, i as int);
                    }
                    return Result::Err(e);
                },
            }
        } else {
            SimResult::default()
        };
        let ratio = if matches!(query.settings.sim_all_strats, SimAllStrats::All) {
            active_res.tau_h.div(idle_res.tau_h)
        } else {
            LogNum::one()
        };
        results.push(SimAllResult { theory, ratio, last_pub: rho, active: active_res, idle: idle_res });
        i = i + 1;
    }
    proof {
        assert(query.values@.take(n as int) =~= query.values@);
    }
    Result::Ok(
        SimAllResponse {
            sigma: query.sigma,
            strat_type: query.settings.sim_all_strats,
            completed_cts: query.settings.completed_cts,
            results,
        },
    )
}

/// Dispatches a request to its driver and wraps the response in the
/// matching variant, carrying that driver's guarantees through: the
/// wrapped response satisfies the corresponding success predicate, and
/// the runs that call no evaluator succeed or fail as the sub-drivers
/// promise.
pub fn simulate<E: Evaluator>(eval: &E, query: &SimQuery, config: &Config) -> (r: Result<
    SimResponse,
    SimError,
>)
    ensures
        (r matches Ok(resp) ==> (match *query {
            SimQuery::Single(_) => resp is Single,
            SimQuery::Chain(q) => resp matches SimResponse::Chain(cr) && spec_chain_ok(
                q,
                *config,
                cr,
            ),
            SimQuery::Step(q) => resp matches SimResponse::Step(sr) && spec_step_ok(q, sr),
            SimQuery::All(q) => resp matches SimResponse::All(ar) && spec_sim_all_ok(q, ar),
        })),
        ((*query) matches SimQuery::Chain(q) ==> (!spec_lt(q.rho@, q.cap@) ==> ((r is Ok)
            == spec_chain_no_work_ok(q, *config)))),
        ((*query) matches SimQuery::Chain(q) ==> (!spec_lt(q.rho@, q.cap@) && spec_tau_lookup(
            config.theories@,
            q.theory,
        ) is None ==> r == Result::<SimResponse, SimError>::Err(SimError::Configuration))),
        ((*query) matches SimQuery::Step(q) ==> (!spec_lt(q.rho@, spec_step_bound(q.cap@)) ==> (
        r matches Ok(resp) && resp matches SimResponse::Step(sr) && sr.results@.len() == 0))),
        ((*query) matches SimQuery::All(q) ==> (spec_quals(q.values@).len() == 0 ==> r is Ok)),
{
    match query {
        SimQuery::Single(q) => {
            match single_sim(eval, q) {
                Result::Ok(resp) => Result::Ok(SimResponse::Single(resp)),
                Result::Err(e) => Result::Err(e),
            }
        },
        SimQuery::Chain(q) => {
            match chain_sim(eval, q, config) {
                Result::Ok(resp) => Result::Ok(SimResponse::Chain(resp)),
                Result::Err(e) => Result::Err(e),
            }
        },
        SimQuery::Step(q) => {
            match step_sim(eval, q) {
                Result::Ok(resp) => Result::Ok(SimResponse::Step(resp)),
                Result::Err(e) => Result::Err(e),
            }
        },
        SimQuery::All(q) => {
            match sim_all(eval, q) {
                Result::Ok(resp) => Result::Ok(SimResponse::All(resp)),
                Result::Err(e) => Result::Err(e),
            }
        },
    }
}

} // verus!
