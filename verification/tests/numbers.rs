//! Log-number arithmetic, ordering, parsing and formatting.

use logsim::lognum::{FpClass, LogNum};
use logsim::fixedlog::SCALE;
use logsim::text::first_word;

/// Two log numbers agree to well under the formatting precision when
/// their ratio stays within one part in a thousand of one.
fn approx(a: LogNum, b: LogNum) -> bool {
    let ratio = a.div(b);
    let lo = LogNum::from_int(999).div(LogNum::from_int(1000));
    let hi = LogNum::from_int(1001).div(LogNum::from_int(1000));
    ratio.ge(&lo) && ratio.le(&hi)
}

#[test]
fn from_int_ordering_strict() {
    assert!(LogNum::from_int(3).lt(&LogNum::from_int(4)));
    assert!(LogNum::from_int(-5).lt(&LogNum::from_int(2)));
    assert!(LogNum::from_int(-5).lt(&LogNum::from_int(0)));
    assert!(LogNum::from_int(0).lt(&LogNum::from_int(1)));
    assert!(LogNum::from_int(-7).lt(&LogNum::from_int(-6)));
    assert!(!LogNum::from_int(4).lt(&LogNum::from_int(3)));
    assert!(LogNum::from_int(12).le(&LogNum::from_int(12)));
    assert_eq!(LogNum::from_int(12), LogNum::from_int(12));
}

#[test]
fn powers_of_ten_construct_exactly() {
    assert_eq!(LogNum::from_int(1), LogNum::one());
    assert_eq!(LogNum::from_int(10).magnitude_scaled(), Some(SCALE));
    assert_eq!(LogNum::from_int(100).magnitude_scaled(), Some(2 * SCALE));
    assert_eq!(LogNum::from_int(1_000_000).magnitude_scaled(), Some(6 * SCALE));
    assert_eq!(
        LogNum::from_int(1_000_000_000_000_000_000).magnitude_scaled(),
        Some(18 * SCALE)
    );
    assert_eq!(LogNum::from_int(-10).magnitude_scaled(), Some(SCALE));
    assert!(LogNum::from_int(-10).is_sign_negative());
}

#[test]
fn from_int_addition_approximates() {
    let sum = LogNum::from_int(3).add(LogNum::from_int(4));
    assert!(approx(sum, LogNum::from_int(7)));
    let sum2 = LogNum::from_int(123).add(LogNum::from_int(877));
    assert!(approx(sum2, LogNum::from_int(1000)));
    let diff = LogNum::from_int(1000).sub(LogNum::from_int(1));
    assert!(approx(diff, LogNum::from_int(999)));
}

#[test]
fn add_zero_is_identity() {
    let x = LogNum::from_int(42);
    assert_eq!(x.add(LogNum::zero()), x);
    assert_eq!(LogNum::zero().add(x), x);
    assert!(LogNum::zero().add(LogNum::zero()).is_zero());
}

#[test]
fn mul_one_is_identity() {
    let x = LogNum::from_int(-42);
    assert_eq!(x.mul(LogNum::one()), x);
    assert_eq!(LogNum::one().mul(x), x);
}

#[test]
fn exact_cancellation_gives_zero() {
    let x = LogNum::from_int(5);
    assert!(x.sub(x).is_zero());
    assert!(x.add(x.neg()).is_zero());
}

#[test]
fn sign_rules_of_multiplication() {
    let a = LogNum::from_int(-3);
    let b = LogNum::from_int(4);
    assert!(a.mul(b).is_sign_negative());
    assert!(a.mul(a).is_sign_positive());
    assert!(a.mul(LogNum::zero()).is_zero());
    assert!(a.div(LogNum::zero()).is_infinite());
    assert!(LogNum::zero().div(LogNum::zero()).is_nan());
    assert!(LogNum::infinity().mul(LogNum::zero()).is_nan());
}

#[test]
fn nan_propagates_and_is_unordered() {
    let n = LogNum::nan();
    assert!(n.add(LogNum::one()).is_nan());
    assert!(n.mul(LogNum::one()).is_nan());
    assert!(n.compare(&LogNum::one()).is_none());
    assert!(!n.lt(&LogNum::one()));
    assert!(!LogNum::one().lt(&n));
}

#[test]
fn infinity_dominates_addition() {
    let inf = LogNum::infinity();
    assert_eq!(inf.add(LogNum::from_int(5)), inf);
    assert_eq!(LogNum::from_int(5).add(inf), inf);
    assert!(LogNum::neg_infinity().is_sign_negative());
    assert!(LogNum::from_int(1).lt(&inf));
    assert!(LogNum::neg_infinity().lt(&LogNum::from_int(-1000)));
}

#[test]
fn integer_powers() {
    let two = LogNum::from_int(2);
    assert!(approx(two.powi(10), LogNum::from_int(1024)));
    let neg2 = LogNum::from_int(-2);
    assert!(neg2.powi(2).is_sign_positive());
    assert!(neg2.powi(3).is_sign_negative());
    assert!(approx(neg2.powi(3).neg(), LogNum::from_int(8)));
    assert!(two.powi(0).is_one());
    assert!(LogNum::zero().powi(0).is_nan());
    assert!(LogNum::zero().powi(3).is_zero());
}

#[test]
fn real_powers_and_domain_errors() {
    let four = LogNum::from_int(4);
    let half = four.sqrt().unwrap();
    assert!(approx(half, LogNum::from_int(2)));
    assert!(LogNum::from_int(-4).sqrt().is_err());
    // A whole fixed-point exponent of a negative base is fine.
    let cube = LogNum::from_int(-2).pow_scaled(3 * SCALE).unwrap();
    assert!(cube.is_sign_negative());
    assert!(LogNum::from_int(-2).pow_scaled(SCALE / 2).is_err());
    let p = LogNum::from_int(10).pow(LogNum::from_int(3)).unwrap();
    assert!(approx(p, LogNum::from_int(1000)));
}

#[test]
fn conversions_to_machine_integers() {
    assert_eq!(LogNum::from_int(1000).to_i64(), Some(1000));
    assert_eq!(LogNum::zero().to_i64(), Some(0));
    assert_eq!(LogNum::infinity().to_i64(), None);
    assert_eq!(LogNum::nan().to_i64(), None);
    let v = LogNum::from_int(123456).to_i64().unwrap();
    assert!((123455..=123457).contains(&v));
    assert_eq!(LogNum::from_int(-5).to_u64(), None);
    let u = LogNum::from_int(7).to_u64().unwrap();
    assert!((6..=7).contains(&u));
}

#[test]
fn min_max_clamp_signum() {
    let a = LogNum::from_int(2);
    let b = LogNum::from_int(5);
    assert_eq!(a.min(b), a);
    assert_eq!(a.max(b), b);
    assert_eq!(LogNum::from_int(9).clamp(a, b), b);
    assert_eq!(LogNum::from_int(1).clamp(a, b), a);
    assert!(LogNum::from_int(-3).signum().is_sign_negative());
    assert!(LogNum::zero().signum().is_one());
    assert_eq!(LogNum::from_int(-3).abs(), LogNum::from_int(3));
}

#[test]
fn logarithms_and_exponentials() {
    let x = LogNum::from_int(1000);
    assert!(approx(x.log10(), LogNum::from_int(3)));
    assert!(x.exp10().is_finite());
    assert!(approx(LogNum::from_int(3).exp10(), LogNum::from_int(1000)));
    assert!(approx(LogNum::from_int(8).log2(), LogNum::from_int(3)));
    assert!(LogNum::zero().log10().is_infinite());
    assert!(LogNum::zero().log10().is_sign_negative());
    assert!(LogNum::zero().exp().is_one());
}

#[test]
fn parse_exponent_forms_exactly() {
    let x = LogNum::from_str("1e20").unwrap();
    assert_eq!(x.magnitude_scaled(), Some(20 * SCALE));
    let y = LogNum::from_str("e5").unwrap();
    assert_eq!(y.magnitude_scaled(), Some(5 * SCALE));
    let z = LogNum::from_str("1e-5").unwrap();
    assert_eq!(z.magnitude_scaled(), Some(-5 * SCALE));
    let w = LogNum::from_str("-e5").unwrap();
    assert!(w.is_sign_negative());
    assert_eq!(w.magnitude_scaled(), Some(5 * SCALE));
    let f = LogNum::from_str("1e2.5").unwrap();
    assert_eq!(f.magnitude_scaled(), Some(5 * SCALE / 2));
}

#[test]
fn parse_decimals() {
    assert_eq!(LogNum::from_str("15").unwrap().to_display_string(), "1.50e1");
    assert_eq!(LogNum::from_str("-2.5e3").unwrap().to_display_string(), "-2.50e3");
    assert_eq!(LogNum::from_str("0.25").unwrap().to_display_string(), "2.50e-1");
    assert!(LogNum::from_str("0").unwrap().is_zero());
    assert_eq!(LogNum::from_str("3.5").unwrap().to_display_string(), "3.50e0");
}

#[test]
fn parse_rejects_malformed_text() {
    assert!(LogNum::from_str("").is_err());
    assert!(LogNum::from_str("abc").is_err());
    assert!(LogNum::from_str("--5").is_err());
    assert!(LogNum::from_str("1.2.3").is_err());
    assert!(LogNum::from_str("1e").is_err());
    assert!(LogNum::from_str("1e2e3").is_err());
    assert!(LogNum::from_str(".").is_err());
    assert!(LogNum::from_str("+5").is_err());
}

#[test]
fn first_word_of_labels() {
    assert_eq!(first_word("Best Overall"), "Best");
    assert_eq!(first_word("  padded label"), "padded");
    assert_eq!(first_word("Solo"), "Solo");
    assert_eq!(first_word(""), "");
    assert_eq!(first_word("   "), "");
}

#[test]
fn classification() {
    assert_eq!(LogNum::zero().classify(), FpClass::Zero);
    assert_eq!(LogNum::infinity().classify(), FpClass::Infinite);
    assert_eq!(LogNum::neg_infinity().classify(), FpClass::Infinite);
    assert_eq!(LogNum::nan().classify(), FpClass::Nan);
    assert_eq!(LogNum::from_int(-7).classify(), FpClass::Normal);
}

#[test]
fn format_fixed_spellings() {
    assert_eq!(LogNum::zero().to_display_string(), "0.00e0");
    assert_eq!(LogNum::nan().to_display_string(), "nan");
    assert_eq!(LogNum::infinity().to_display_string(), "inf");
    assert_eq!(LogNum::neg_infinity().to_display_string(), "-inf");
    assert_eq!(LogNum::one().to_display_string(), "1.00e0");
    assert_eq!(LogNum::from_int(-1).to_display_string(), "-1.00e0");
}

#[test]
fn format_round_trip_within_precision() {
    let samples = vec![
        LogNum::from_int(7),
        LogNum::from_int(123456),
        LogNum::from_int(-999),
        LogNum::from_str("3.14e10").unwrap(),
        LogNum::from_str("9.99e-7").unwrap(),
    ];
    for x in samples {
        let s = x.to_display_string();
        let y = LogNum::from_str(&s).unwrap();
        assert_eq!(y.to_display_string(), s);
    }
}

#[test]
fn huge_magnitudes_survive() {
    let a = LogNum::from_str("1e400").unwrap();
    let b = LogNum::from_str("2e400").unwrap();
    assert!(a.lt(&b));
    let c = a.mul(b);
    assert_eq!(c.to_display_string(), "2.00e800");
    assert!(a.to_i64().is_none());
    let tiny = LogNum::from_str("1e-400").unwrap();
    assert_eq!(tiny.to_i64(), Some(0));
}

#[test]
fn parsed_powers_of_ten_add_to_the_expected_rendering() {
    let a = LogNum::from_str("1e20").unwrap();
    let b = LogNum::from_str("1e22").unwrap();
    assert_eq!(a.add(b).to_display_string(), "1.01e22");
    assert_eq!(b.add(a).to_display_string(), "1.01e22");
}

#[test]
fn adding_distant_magnitudes_keeps_the_larger() {
    let big = LogNum::from_str("1e100").unwrap();
    let small = LogNum::one();
    assert_eq!(big.add(small), big);
}
