//! Cost and value curves: cumulative forms against plain sums, the
//! incremental value forms against their closed forms, and the variable
//! binding the two.

use logsim::lognum::LogNum;
use logsim::cost::{
    Cost, CostTrait, ConstantCost, ExponentialCost, StepwiseCost, CompositeCost, FirstFreeCost,
};
use logsim::value::{Value, ValueTrait, LinearValue, ExponentialValue, StepwisePowerSumValue};
use logsim::variable::Variable;
use logsim::currency::Currency;
use logsim::var_buy::{VarBuy, get_last_purchase};

/// Two log numbers agree to well under the formatting precision when
/// their ratio stays within one part in a thousand of one.
fn approx(a: LogNum, b: LogNum) -> bool {
    let ratio = a.div(b);
    let lo = LogNum::from_int(999).div(LogNum::from_int(1000));
    let hi = LogNum::from_int(1001).div(LogNum::from_int(1000));
    ratio.ge(&lo) && ratio.le(&hi)
}

/// The cumulative form must match the plain sum of single-step costs.
fn check_total_matches_sum<C: CostTrait>(curve: &C, levels: &[i32]) {
    for &l in levels {
        let mut sum = LogNum::zero();
        for k in 1..=l {
            sum = sum.add(curve.get_cost_to(k));
        }
        let total = curve.get_total_cost_to(l);
        if total.is_zero() {
            assert!(sum.is_zero());
        } else {
            assert!(
                approx(sum, total),
                "level {}: sum {} vs total {}",
                l,
                sum.to_display_string(),
                total.to_display_string()
            );
        }
    }
}

#[test]
fn constant_total_is_sum() {
    let c = ConstantCost::new(LogNum::from_int(7));
    check_total_matches_sum(&c, &[1, 2, 5, 13]);
    assert!(c.get_cost_to(0).is_zero());
    assert!(c.get_total_cost_to(-3).is_zero());
}

#[test]
fn exponential_total_is_sum() {
    let c = ExponentialCost::new(LogNum::from_int(2), LogNum::from_int(3)).unwrap();
    check_total_matches_sum(&c, &[1, 2, 5, 9]);
    assert!(c.get_cost_to(0).is_zero());
}

#[test]
fn exponential_base_one_is_rejected() {
    assert!(ExponentialCost::new(LogNum::from_int(2), LogNum::one()).is_err());
    assert!(Cost::new_exponential(LogNum::from_int(2), LogNum::from_int(1)).is_err());
}

#[test]
fn exponential_log2_base_is_a_power_of_two() {
    // Base given as three doublings: the stored base is eight.
    let c = ExponentialCost::new_log2(LogNum::from_int(1), LogNum::from_int(3)).unwrap();
    assert!(approx(c.get_cost_to(2), LogNum::from_int(8)));
    // Two to the zeroth power is one, which no exponential curve accepts.
    assert!(ExponentialCost::new_log2(LogNum::from_int(1), LogNum::zero()).is_err());
}

#[test]
fn exponential_doubling_total_reaches_1023() {
    let c = ExponentialCost::new(LogNum::from_int(1), LogNum::from_int(2)).unwrap();
    let total = c.get_total_cost_to(10);
    assert_eq!(total.to_display_string(), "1.02e3");
    let v = total.to_i64().unwrap();
    assert!((1022..=1024).contains(&v), "total {}", v);
    assert!(approx(total, LogNum::from_int(1023)));
}

#[test]
fn stepwise_total_is_sum_at_bucket_boundaries() {
    let inner = ExponentialCost::new(LogNum::from_int(2), LogNum::from_int(3)).unwrap();
    let c = StepwiseCost::new(inner, 4);
    check_total_matches_sum(&c, &[1, 3, 4, 5, 8, 9, 11]);
    // Every level of a bucket costs the inner price of that bucket.
    assert_eq!(c.get_cost_to(1), c.get_cost_to(4));
    assert_ne!(c.get_cost_to(4), c.get_cost_to(5));
}

#[test]
fn composite_total_is_sum_at_the_cutoff() {
    let first = ConstantCost::new(LogNum::from_int(5));
    let second = ExponentialCost::new(LogNum::from_int(1), LogNum::from_int(2)).unwrap();
    let c = CompositeCost::new(first, second, 3);
    check_total_matches_sum(&c, &[1, 2, 3, 4, 7]);
    assert_eq!(c.get_cost_to(3), first.get_cost_to(3));
    assert_eq!(c.get_cost_to(4), second.get_cost_to(1));
}

#[test]
fn first_free_shifts_levels_down() {
    let inner = ExponentialCost::new(LogNum::from_int(2), LogNum::from_int(3)).unwrap();
    let c = FirstFreeCost::new(inner);
    assert!(c.get_cost_to(1).is_zero());
    assert_eq!(c.get_cost_to(2), inner.get_cost_to(1));
    check_total_matches_sum(&c, &[1, 2, 5]);
}

#[test]
fn cost_enum_dispatch_and_next_cost() {
    let c = Cost::new_exponential(LogNum::from_int(1), LogNum::from_int(2)).unwrap();
    assert_eq!(c.get_cost(0), c.get_cost_to(1));
    assert_eq!(c.get_cost(7), c.get_cost_to(8));
    let k = Cost::new_constant(LogNum::from_int(9));
    assert_eq!(k.get_cost(100), LogNum::from_int(9));
    let boxed = Cost::new(Box::new(ConstantCost::new(LogNum::from_int(2))));
    assert_eq!(boxed.get_cost_to(5), LogNum::from_int(2));
}

/// The incremental form chained from level zero must agree with the
/// closed form at the next level.
fn check_chained_next<V: ValueTrait>(curve: &V, levels: &[i32]) {
    for &target in levels {
        let mut v = curve.compute_from_zero(0);
        for l in 0..=target {
            v = curve.compute_next(v, l);
        }
        let closed = curve.compute_from_zero(target + 1);
        if closed.is_zero() {
            assert!(v.is_zero());
        } else {
            assert!(
                approx(v, closed),
                "level {}: chained {} vs closed {}",
                target,
                v.to_display_string(),
                closed.to_display_string()
            );
        }
    }
}

#[test]
fn linear_value_chains_to_closed_form() {
    let v = LinearValue::new(LogNum::from_int(3), LogNum::from_int(2));
    check_chained_next(&v, &[0, 1, 4, 5]);
}

#[test]
fn exponential_value_chains_to_closed_form() {
    let v = ExponentialValue::new(LogNum::from_int(2));
    check_chained_next(&v, &[0, 1, 4, 5]);
}

#[test]
fn stepwise_power_sum_value_chains_to_closed_form() {
    let v = StepwisePowerSumValue::new(LogNum::from_int(2), 4, LogNum::from_int(1)).unwrap();
    check_chained_next(&v, &[0, 1, 3, 4, 5]);
}

#[test]
fn stepwise_power_sum_base_one_is_rejected() {
    assert!(StepwisePowerSumValue::new(LogNum::one(), 4, LogNum::zero()).is_err());
    assert!(Value::new_stepwise(LogNum::from_int(1), 4, LogNum::zero()).is_err());
}

#[test]
fn value_enum_dispatch() {
    let v = Value::new_exponential(LogNum::from_int(2));
    assert!(approx(v.compute_from_zero(10), LogNum::from_int(1024)));
    let lin = Value::new_linear(LogNum::from_int(2), LogNum::zero());
    assert!(approx(lin.compute_from_zero(6), LogNum::from_int(12)));
    let boxed = Value::new(Box::new(LinearValue::new(LogNum::from_int(1), LogNum::zero())));
    assert!(approx(boxed.compute_from_zero(5), LogNum::from_int(5)));
}

#[test]
fn variable_buy_uses_the_level_before_incrementing() {
    let cost = ConstantCost::new(LogNum::from_int(5));
    let value = ExponentialValue::new(LogNum::from_int(2));
    let mut var = Variable::new("x", cost, value);
    assert_eq!(var.level, 0);
    assert!(var.value.is_one());
    assert_eq!(var.cost, LogNum::from_int(5));
    var.buy();
    assert_eq!(var.level, 1);
    assert!(approx(var.value, LogNum::from_int(2)));
    var.buy();
    assert_eq!(var.level, 2);
    assert!(approx(var.value, LogNum::from_int(4)));
}

#[test]
fn variable_set_recomputes_from_zero() {
    let cost = ExponentialCost::new(LogNum::from_int(1), LogNum::from_int(2)).unwrap();
    let value = ExponentialValue::new(LogNum::from_int(3));
    let mut var = Variable::new("y", cost, value);
    var.set(4);
    assert_eq!(var.level, 4);
    assert!(approx(var.value, LogNum::from_int(81)));
    assert!(approx(var.cost, LogNum::from_int(16)));
}

#[test]
fn currency_balance_moves() {
    let mut c = Currency::new_rho();
    assert!(c.value.is_zero());
    assert_eq!(c.symbol, "\u{3c1}");
    c.add(LogNum::from_int(5));
    c.subtract(LogNum::from_int(2));
    assert!(approx(c.value, LogNum::from_int(3)));
    let named = Currency::new("delta");
    assert!(named.value.is_zero());
}

#[test]
fn last_purchase_finds_the_first_matching_symbol() {
    let buys = vec![
        VarBuy {
            var_name: "c1".to_owned(),
            level: 3,
            cost: LogNum::from_int(10),
            symbol: "q1".to_owned(),
            timestamp: LogNum::zero(),
        },
        VarBuy {
            var_name: "c2".to_owned(),
            level: 7,
            cost: LogNum::from_int(20),
            symbol: "q2".to_owned(),
            timestamp: LogNum::zero(),
        },
        VarBuy {
            var_name: "c3".to_owned(),
            level: 9,
            cost: LogNum::from_int(30),
            symbol: "q2".to_owned(),
            timestamp: LogNum::zero(),
        },
    ];
    assert_eq!(get_last_purchase("q2", &buys), Some(7));
    assert_eq!(get_last_purchase("q1", &buys), Some(3));
    assert_eq!(get_last_purchase("q9", &buys), None);
}
