//! The simulation driver under injected evaluation capabilities, the
//! category enumeration and the one-time configuration store.

use logsim::lognum::LogNum;
use logsim::errors::SimError;
use logsim::config::{Config, ConfigStore, ConfigTheories, TheoryType};
use logsim::fixedlog::SCALE;
use logsim::result::SimResult;
use logsim::settings::{CompletedCTs, SimAllStrats, SimSettings};
use logsim::sim::{
    chain_sim, sim_all, simulate, single_sim, step_sim, ChainSimQuery, Evaluator, SimAllQuery,
    SimQuery, SimResponse, SingleSimQuery, StepSimQuery,
};

fn settings(strats: SimAllStrats) -> SimSettings {
    SimSettings {
        dt: SCALE / 10,
        ddt: SCALE,
        mf_reset_depth: 0,
        bought_vars_delta: 0,
        sim_all_strats: strats,
        completed_cts: CompletedCTs::No,
        show_a23: false,
        show_unofficials: false,
    }
}

fn config_with(theory: TheoryType, tau_factor: i64) -> Config {
    Config {
        theories: vec![(theory, ConfigTheories { tau_factor })],
        strat_categories: vec!["Idle".to_owned(), "Active".to_owned()],
    }
}

/// Multiplies the amount by a fixed factor and reports one hour per step.
struct TimesEval {
    factor: i64,
}

impl Evaluator for TimesEval {
    fn evaluate(&self, query: &SingleSimQuery) -> Result<SimResult, SimError> {
        let mut res = SimResult::default();
        res.theory = query.theory;
        res.sigma = query.sigma;
        res.last_pub = query.rho;
        res.pub_rho = query.rho.mul(LogNum::from_int(self.factor));
        res.strat = "TEST strategy".to_owned();
        res.time = LogNum::from_int(3600);
        Ok(res)
    }
}

/// Returns the amount unchanged: a capability that never makes progress.
struct StuckEval;

impl Evaluator for StuckEval {
    fn evaluate(&self, query: &SingleSimQuery) -> Result<SimResult, SimError> {
        let mut res = SimResult::default();
        res.pub_rho = query.rho;
        Ok(res)
    }
}

/// Reports a fixed rate that depends on the requested strategy.
struct RateEval;

impl Evaluator for RateEval {
    fn evaluate(&self, query: &SingleSimQuery) -> Result<SimResult, SimError> {
        let mut res = SimResult::default();
        res.pub_rho = query.rho.mul(LogNum::from_int(10));
        res.tau_h = if query.strat.contains("Active") || query.strat.contains("Overall") {
            LogNum::from_int(6)
        } else {
            LogNum::from_int(2)
        };
        Ok(res)
    }
}

/// Always fails, as a stubbed strategy engine would.
struct FailingEval;

impl Evaluator for FailingEval {
    fn evaluate(&self, _query: &SingleSimQuery) -> Result<SimResult, SimError> {
        Err(SimError::Eval("strategy not implemented".to_owned()))
    }
}

#[test]
fn chained_run_times_ten_takes_six_steps() {
    let eval = TimesEval { factor: 10 };
    let config = config_with(TheoryType::T1, SCALE);
    let query = ChainSimQuery {
        theory: TheoryType::T1,
        strat: "Best Overall".to_owned(),
        sigma: 0,
        rho: LogNum::from_int(1),
        cap: LogNum::from_int(1_000_000),
        hard_cap: false,
        settings: settings(SimAllStrats::All),
    };
    let resp = chain_sim(&eval, &query, &config).unwrap();
    assert_eq!(resp.results.len(), 6);
    assert_eq!(resp.delta_tau.to_display_string(), "1.00e6");
    let t = resp.total_time.to_i64().unwrap();
    assert!((21590..=21610).contains(&t), "total time {}", t);
    let last = resp.results.last().unwrap();
    assert_eq!(last.pub_rho.to_display_string(), "1.00e6");
}

#[test]
fn chained_run_applies_the_tau_factor() {
    let eval = TimesEval { factor: 10 };
    // Half the exponent: the tail rate is the square root of the growth.
    let config = config_with(TheoryType::T2, SCALE / 2);
    let query = ChainSimQuery {
        theory: TheoryType::T2,
        strat: "Best Idle".to_owned(),
        sigma: 3,
        rho: LogNum::from_int(1),
        cap: LogNum::from_int(10_000),
        hard_cap: true,
        settings: settings(SimAllStrats::All),
    };
    let resp = chain_sim(&eval, &query, &config).unwrap();
    assert_eq!(resp.results.len(), 4);
    assert_eq!(resp.delta_tau.to_display_string(), "1.00e2");
}

#[test]
fn chained_run_without_progress_is_non_convergent() {
    let eval = StuckEval;
    let config = config_with(TheoryType::T1, SCALE);
    let query = ChainSimQuery {
        theory: TheoryType::T1,
        strat: "Best Idle".to_owned(),
        sigma: 0,
        rho: LogNum::from_int(1),
        cap: LogNum::from_int(1000),
        hard_cap: false,
        settings: settings(SimAllStrats::All),
    };
    assert_eq!(chain_sim(&eval, &query, &config).unwrap_err(), SimError::NonConvergent);
}

#[test]
fn chained_run_needs_a_tuning_entry() {
    let eval = TimesEval { factor: 10 };
    let config = config_with(TheoryType::T2, SCALE);
    let query = ChainSimQuery {
        theory: TheoryType::T1,
        strat: "Best Idle".to_owned(),
        sigma: 0,
        rho: LogNum::from_int(1),
        cap: LogNum::from_int(10),
        hard_cap: false,
        settings: settings(SimAllStrats::All),
    };
    assert_eq!(chain_sim(&eval, &query, &config).unwrap_err(), SimError::Configuration);
}

#[test]
fn chained_run_propagates_evaluation_failures() {
    let eval = FailingEval;
    let config = config_with(TheoryType::T1, SCALE);
    let query = ChainSimQuery {
        theory: TheoryType::T1,
        strat: "Best Idle".to_owned(),
        sigma: 0,
        rho: LogNum::from_int(1),
        cap: LogNum::from_int(1000),
        hard_cap: false,
        settings: settings(SimAllStrats::All),
    };
    assert_eq!(
        chain_sim(&eval, &query, &config).unwrap_err(),
        SimError::Eval("strategy not implemented".to_owned())
    );
}

#[test]
fn fixed_step_run_doubles_to_the_widened_cap() {
    let eval = TimesEval { factor: 10 };
    let query = StepSimQuery {
        theory: TheoryType::T1,
        strat: "Best Idle".to_owned(),
        sigma: 0,
        rho: LogNum::from_int(1),
        cap: LogNum::from_int(100),
        step: LogNum::from_int(2),
        settings: settings(SimAllStrats::All),
    };
    let resp = step_sim(&eval, &query).unwrap();
    // 1, 2, 4, ..., 64 are below 100.1; 128 is the first amount past it.
    assert_eq!(resp.results.len(), 7);
    let last_start = resp.results.last().unwrap().last_pub;
    assert!(LogNum::from_int(63).lt(&last_start));
    assert!(last_start.lt(&LogNum::from_int(65)));
}

#[test]
fn fixed_step_run_with_a_flat_step_is_non_convergent() {
    let eval = TimesEval { factor: 10 };
    let query = StepSimQuery {
        theory: TheoryType::T1,
        strat: "Best Idle".to_owned(),
        sigma: 0,
        rho: LogNum::from_int(1),
        cap: LogNum::from_int(100),
        step: LogNum::from_int(1),
        settings: settings(SimAllStrats::All),
    };
    assert_eq!(step_sim(&eval, &query).unwrap_err(), SimError::NonConvergent);
}

#[test]
fn aggregate_run_keeps_qualifying_categories_in_order() {
    let eval = RateEval;
    let query = SimAllQuery {
        values: vec![
            LogNum::from_int(2),
            LogNum::from_int(1),
            LogNum::zero(),
            LogNum::from_int(50),
        ],
        sigma: 5,
        very_active: false,
        semi_idle: false,
        settings: settings(SimAllStrats::All),
    };
    let resp = sim_all(&eval, &query).unwrap();
    assert_eq!(resp.results.len(), 2);
    assert_eq!(resp.results[0].theory, TheoryType::T1);
    assert_eq!(resp.results[1].theory, TheoryType::T4);
    assert_eq!(resp.results[0].last_pub, LogNum::from_int(2));
    // Active rate 6 over idle rate 2.
    assert_eq!(resp.results[0].ratio.to_display_string(), "3.00e0");
    assert_eq!(resp.sigma, 5);
}

#[test]
fn aggregate_run_idle_only_defaults_the_ratio() {
    let eval = RateEval;
    let query = SimAllQuery {
        values: vec![LogNum::from_int(2)],
        sigma: 0,
        very_active: true,
        semi_idle: true,
        settings: settings(SimAllStrats::Idle),
    };
    let resp = sim_all(&eval, &query).unwrap();
    assert_eq!(resp.results.len(), 1);
    assert!(resp.results[0].ratio.is_one());
    // The active slot was never evaluated.
    assert_eq!(resp.results[0].active.strat, "Result undefined");
}

#[test]
fn dispatch_wraps_the_matching_variant() {
    let eval = TimesEval { factor: 10 };
    let config = config_with(TheoryType::T1, SCALE);
    let single = SimQuery::Single(SingleSimQuery {
        theory: TheoryType::T1,
        strat: "Best Idle".to_owned(),
        sigma: 0,
        rho: LogNum::from_int(1),
        cap: None,
        last_strat: None,
        settings: settings(SimAllStrats::All),
    });
    match simulate(&eval, &single, &config).unwrap() {
        SimResponse::Single(resp) => {
            assert_eq!(resp.result.pub_rho.to_display_string(), "1.00e1");
        },
        _ => panic!("wrong variant"),
    }
    let failing = FailingEval;
    assert!(single_sim(&failing, match &single {
        SimQuery::Single(q) => q,
        _ => unreachable!(),
    })
        .is_err());
}

#[test]
fn chained_run_at_the_cap_takes_no_step() {
    let eval = FailingEval;
    let config = config_with(TheoryType::T1, SCALE);
    let query = ChainSimQuery {
        theory: TheoryType::T1,
        strat: "Best Idle".to_owned(),
        sigma: 0,
        rho: LogNum::from_int(1000),
        cap: LogNum::from_int(1000),
        hard_cap: false,
        settings: settings(SimAllStrats::All),
    };
    // The evaluator always fails, but it is never consulted.
    let resp = chain_sim(&eval, &query, &config).unwrap();
    assert!(resp.results.is_empty());
    assert!(resp.delta_tau.is_one());
}

#[test]
fn chained_run_at_the_cap_still_needs_the_tuning_entry() {
    let eval = FailingEval;
    let config = config_with(TheoryType::T2, SCALE);
    let query = ChainSimQuery {
        theory: TheoryType::T1,
        strat: "Best Idle".to_owned(),
        sigma: 0,
        rho: LogNum::from_int(1000),
        cap: LogNum::from_int(1000),
        hard_cap: false,
        settings: settings(SimAllStrats::All),
    };
    assert_eq!(chain_sim(&eval, &query, &config).unwrap_err(), SimError::Configuration);
}

#[test]
fn fixed_step_run_at_the_cap_takes_no_step() {
    let eval = FailingEval;
    let query = StepSimQuery {
        theory: TheoryType::T1,
        strat: "Best Idle".to_owned(),
        sigma: 0,
        rho: LogNum::from_int(200),
        cap: LogNum::from_int(100),
        step: LogNum::from_int(2),
        settings: settings(SimAllStrats::All),
    };
    let resp = step_sim(&eval, &query).unwrap();
    assert!(resp.results.is_empty());
}

#[test]
fn aggregate_run_without_qualifiers_never_evaluates() {
    let eval = FailingEval;
    let query = SimAllQuery {
        values: vec![LogNum::from_int(1), LogNum::zero()],
        sigma: 0,
        very_active: false,
        semi_idle: false,
        settings: settings(SimAllStrats::All),
    };
    let resp = sim_all(&eval, &query).unwrap();
    assert!(resp.results.is_empty());
}

#[test]
fn theory_enumeration_round_trips() {
    assert_eq!(TheoryType::try_from(0), Some(TheoryType::T1));
    assert_eq!(TheoryType::try_from(18), Some(TheoryType::BT));
    assert_eq!(TheoryType::try_from(19), None);
    for i in 0..19 {
        let t = TheoryType::try_from(i).unwrap();
        assert_eq!(t.index(), i);
    }
}

#[test]
fn config_lookup_finds_entries() {
    let config = Config {
        theories: vec![
            (TheoryType::T1, ConfigTheories { tau_factor: SCALE }),
            (TheoryType::WSP, ConfigTheories { tau_factor: SCALE / 4 }),
        ],
        strat_categories: vec![],
    };
    assert_eq!(config.tau_factor(TheoryType::WSP), Some(SCALE / 4));
    assert_eq!(config.tau_factor(TheoryType::BT), None);
}

#[test]
fn config_store_sets_exactly_once() {
    let mut store = ConfigStore::new();
    assert!(store.get().is_none());
    assert!(store.set(config_with(TheoryType::T1, SCALE)).is_ok());
    assert!(store.get().is_some());
    assert_eq!(
        store.set(config_with(TheoryType::T2, SCALE)),
        Err(SimError::Configuration)
    );
    // The first configuration is untouched.
    assert_eq!(store.get().unwrap().tau_factor(TheoryType::T1), Some(SCALE));
}

#[test]
fn default_record_is_the_documented_placeholder() {
    let r = SimResult::default();
    assert_eq!(r.theory, TheoryType::T1);
    assert!(r.pub_rho.is_one());
    assert!(r.tau_h.is_zero());
    assert_eq!(r.strat, "Result undefined");
    assert!(r.bought_vars.is_empty());
}
