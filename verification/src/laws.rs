//! Consistency laws of the curve families and the log-domain algebra.
//!
//! The curve implementations evaluate closed forms in log-domain
//! arithmetic, whose addition rounds in the fixed-point kernel. The laws
//! that relate incremental and cumulative forms are therefore proved
//! here in two layers: exactly over the integers for the identities the
//! closed forms realize, and exactly over log-domain values wherever the
//! log-domain operations involved are themselves exact (multiplication,
//! powers, comparison, the zero and one identities).

use vstd::prelude::*;
use core::cmp::Ordering;
use crate::lognum::{
    LogVal, spec_add, spec_mul, spec_neg, spec_powi, spec_cmp, spec_le, spec_lt, spec_from_int,
    val_neg, val_mag, MAG_MAX,
};
use crate::fixedlog::{SCALE, TEN_SCALE, ten_pow, spec_pow10, spec_bisect, spec_int_exp, spec_log_of_int};

verus! {

/// Integer power.
pub open spec fn pow_int(b: int, n: nat) -> int
    decreases n,
{
    if n == 0 {
        1
    } else {
        b * pow_int(b, (n - 1) as nat)
    }
}

/// The cumulative cost of an exponential curve as a plain sum:
/// `geom_sum(c, b, l)` is the sum of `c * b^(k-1)` for `k` from 1 to `l`.
pub open spec fn geom_sum(c: int, b: int, l: nat) -> int
    decreases l,
{
    if l == 0 {
        0
    } else {
        geom_sum(c, b, (l - 1) as nat) + c * pow_int(b, (l - 1) as nat)
    }
}

/// The cumulative cost of an exponential curve equals its closed form:
/// over exact arithmetic, `(b - 1) * Σ_{k=1}^{l} c·b^(k-1) == c·(b^l - 1)`,
/// the geometric series the implementation evaluates as
/// `c * (b^l - 1) / (b - 1)` in log space.
pub proof fn lemma_exponential_total(c: int, b: int, l: nat)
    ensures
        (b - 1) * geom_sum(c, b, l) == c * (pow_int(b, l) - 1),
    decreases l,
{
    if l > 0 {
        lemma_exponential_total(c, b, (l - 1) as nat);
        let s0 = geom_sum(c, b, (l - 1) as nat);
        let p0 = pow_int(b, (l - 1) as nat);
        assert(geom_sum(c, b, l) == s0 + c * p0);
        assert(pow_int(b, l) == b * p0);
        assert((b - 1) * (s0 + c * p0) == c * (b * p0 - 1)) by (nonlinear_arith)
            requires (b - 1) * s0 == c * (p0 - 1);
    } else {
        assert(geom_sum(c, b, l) == 0);
        assert(pow_int(b, l) == 1);
        assert((b - 1) * 0 == 0) by (nonlinear_arith);
        assert(c * (1 - 1) == 0) by (nonlinear_arith);
    }
}

/// The cumulative cost of a constant curve as a plain sum.
pub open spec fn const_sum(c: int, l: nat) -> int
    decreases l,
{
    if l == 0 {
        0
    } else {
        const_sum(c, (l - 1) as nat) + c
    }
}

/// The cumulative cost of a constant curve equals its closed form:
/// `Σ_{k=1}^{l} c == c·l`, which the implementation evaluates as
/// `c * l` in log space.
pub proof fn lemma_constant_total(c: int, l: nat)
    ensures
        const_sum(c, l) == c * l,
    decreases l,
{
    if l > 0 {
        lemma_constant_total(c, (l - 1) as nat);
        assert(const_sum(c, l) == const_sum(c, (l - 1) as nat) + c);
        assert(c * (l - 1) + c == c * (l as int)) by (nonlinear_arith);
    } else {
        assert(const_sum(c, l) == 0);
        assert(c * (l as int) == 0) by (nonlinear_arith)
            requires l == 0;
    }
}

/// The sum of an arbitrary per-step cost `f` over levels 1 to `l`.
pub open spec fn sum_f(f: spec_fn(int) -> int, l: int) -> int
    decreases l,
{
    if l <= 0 {
        0
    } else {
        sum_f(f, l - 1) + f(l)
    }
}

/// The per-step costs of a stepwise curve over `f` with bucket width `s`,
/// summed over levels 1 to `l`.
pub open spec fn stepwise_sum(f: spec_fn(int) -> int, s: int, l: int) -> int
    decreases l,
{
    if l <= 0 {
        0
    } else {
        stepwise_sum(f, s, l - 1) + f((l - 1) / s + 1)
    }
}

/// How division and remainder step when the dividend steps by one.
proof fn lemma_div_mod_succ(x: int, s: int)
    requires
        0 <= x,
        1 <= s,
    ensures
        x % s < s - 1 ==> (x + 1) / s == x / s && (x + 1) % s == x % s + 1,
        x % s == s - 1 ==> (x + 1) / s == x / s + 1 && (x + 1) % s == 0,
{
    let q = x / s;
    let r = x % s;
    vstd::arithmetic::div_mod::lemma_fundamental_div_mod(x, s);
    vstd::arithmetic::div_mod::lemma_mod_bound(x, s);
    if r < s - 1 {
        vstd::arithmetic::div_mod::lemma_fundamental_div_mod_converse(x + 1, s, q, r + 1);
    } else {
        assert(x + 1 == (q + 1) * s + 0) by (nonlinear_arith)
            requires x == s * q + r, r == s - 1;
        vstd::arithmetic::div_mod::lemma_fundamental_div_mod_converse(x + 1, s, q + 1, 0);
    }
}

/// The cumulative cost of a stepwise curve equals its bucketed closed
/// form: for a bucket width `s` and level `l >= 1`, with `q = (l-1)/s`
/// full buckets and `r = (l-1)%s + 1` purchases in the open bucket,
/// `Σ_{k=1}^{l} f((k-1)/s + 1) == (Σ_{k=1}^{q} f(k))·s + f(q+1)·r`,
/// which the implementation evaluates against the inner curve's own
/// cumulative form in log space.
pub proof fn lemma_stepwise_total(f: spec_fn(int) -> int, s: int, l: int)
    requires
        1 <= s,
        1 <= l,
    ensures
        stepwise_sum(f, s, l) == sum_f(f, (l - 1) / s) * s + f((l - 1) / s + 1) * ((l - 1) % s
            + 1),
    decreases l,
{
    if l == 1 {
        assert((1 - 1) / s == 0 && (1 - 1) % s == 0) by {
            vstd::arithmetic::div_mod::lemma_small_div_converse(0, s);
            vstd::arithmetic::div_mod::lemma_small_mod(0, s as nat);
        }
        assert(stepwise_sum(f, s, 0) == 0);
        assert(sum_f(f, 0) == 0);
        assert(stepwise_sum(f, s, 1) == f(0int / s + 1));
        assert(sum_f(f, 0) * s == 0 && f(1) * 1 == f(1)) by (nonlinear_arith)
            requires sum_f(f, 0) == 0;
    } else {
        lemma_stepwise_total(f, s, l - 1);
        let x = l - 2;
        let q = x / s;
        let r = x % s;
        lemma_div_mod_succ(x, s);
        if r < s - 1 {
            assert(stepwise_sum(f, s, l) == stepwise_sum(f, s, l - 1) + f((l - 1) / s + 1));
            assert(f(q + 1) * (r + 1) + f(q + 1) == f(q + 1) * (r + 2)) by (nonlinear_arith);
        } else {
            assert(sum_f(f, q + 1) == sum_f(f, q) + f(q + 1));
            assert(sum_f(f, q) * s + f(q + 1) * (r + 1) + f(q + 2) == sum_f(f, q + 1) * s + f(
                q + 2,
            ) * 1) by (nonlinear_arith)
                requires r == s - 1, sum_f(f, q + 1) == sum_f(f, q) + f(q + 1);
        }
    }
}

/// The per-step costs of a composite curve: the first curve up to the
/// cutoff, the second reindexed past it, summed over levels 1 to `l`.
pub open spec fn composite_sum(
    f1: spec_fn(int) -> int,
    f2: spec_fn(int) -> int,
    c: int,
    l: int,
) -> int
    decreases l,
{
    if l <= 0 {
        0
    } else {
        composite_sum(f1, f2, c, l - 1) + (if l <= c {
            f1(l)
        } else {
            f2(l - c)
        })
    }
}

/// Below the cutoff a composite sum is just the first curve's sum.
proof fn lemma_composite_below(f1: spec_fn(int) -> int, f2: spec_fn(int) -> int, c: int, l: int)
    requires
        0 <= l <= c,
    ensures
        composite_sum(f1, f2, c, l) == sum_f(f1, l),
    decreases l,
{
    if l > 0 {
        lemma_composite_below(f1, f2, c, l - 1);
    }
}

/// The cumulative cost of a composite curve splits at the cutoff: for
/// `l > c >= 0`, `Σ_{k=1}^{l} route(k) == Σ_{k=1}^{l-c} f2(k) +
/// Σ_{k=1}^{c} f1(k)`, which the implementation evaluates as
/// `total2(l - c) + total1(c)` in log space.
pub proof fn lemma_composite_total(
    f1: spec_fn(int) -> int,
    f2: spec_fn(int) -> int,
    c: int,
    l: int,
)
    requires
        0 <= c < l,
    ensures
        composite_sum(f1, f2, c, l) == sum_f(f2, l - c) + sum_f(f1, c),
    decreases l,
{
    if l == c + 1 {
        lemma_composite_below(f1, f2, c, c);
        assert(composite_sum(f1, f2, c, l) == composite_sum(f1, f2, c, c) + f2(1));
        assert(sum_f(f2, 0) == 0);
        assert(sum_f(f2, 1) == sum_f(f2, 0) + f2(1));
    } else {
        lemma_composite_total(f1, f2, c, l - 1);
        assert(composite_sum(f1, f2, c, l) == composite_sum(f1, f2, c, l - 1) + f2(l - c));
        assert(sum_f(f2, l - c) == sum_f(f2, l - c - 1) + f2(l - c));
    }
}

/// The per-step costs of a first-free curve: the inner curve shifted
/// down one level, summed over levels 1 to `l`.
pub open spec fn shift_sum(f: spec_fn(int) -> int, l: int) -> int
    decreases l,
{
    if l <= 0 {
        0
    } else {
        shift_sum(f, l - 1) + f(l - 1)
    }
}

/// The cumulative cost of a first-free curve equals the inner cumulative
/// form one level down, provided the inner level-zero cost is zero:
/// `Σ_{k=1}^{l} f(k-1) == Σ_{k=1}^{l-1} f(k)` when `f(0) == 0`, which the
/// implementation evaluates as the inner total at `l - 1`.
pub proof fn lemma_first_free_total(f: spec_fn(int) -> int, l: int)
    requires
        0 <= l,
        f(0) == 0,
    ensures
        shift_sum(f, l) == sum_f(f, l - 1),
    decreases l,
{
    if l > 0 {
        lemma_first_free_total(f, l - 1);
    }
}

/// The linear value curve's incremental form agrees with its closed
/// form: over exact arithmetic, `(off + slope·l) + slope ==
/// off + slope·(l+1)`, the step the implementation takes in log space.
pub proof fn lemma_linear_value_next(off: int, slope: int, l: int)
    ensures
        (off + slope * l) + slope == off + slope * (l + 1),
{
    assert(slope * l + slope == slope * (l + 1)) by (nonlinear_arith);
}

/// The stepwise power-sum value curve scaled by `b - 1`: with buckets of
/// `len` levels, `(b-1)` times the closed form `(d + l mod len)·b^(l/len)
/// - d + off` where `d = len/(b-1)`.
pub open spec fn sps_scaled(b: int, len: int, off: int, l: int) -> int {
    (len + (l % len) * (b - 1)) * pow_int(b, (l / len) as nat) - len + off * (b - 1)
}

/// The stepwise power-sum value curve's incremental form agrees with its
/// closed form: over exact arithmetic scaled by `b - 1`, one purchase at
/// level `l` adds exactly `b^(l/len)`, the amortized step the
/// implementation takes in log space.
pub proof fn lemma_stepwise_value_next(b: int, len: int, off: int, l: int)
    requires
        1 <= len,
        0 <= l,
    ensures
        sps_scaled(b, len, off, l + 1) == sps_scaled(b, len, off, l) + (b - 1) * pow_int(
            b,
            (l / len) as nat,
        ),
{
    let q = l / len;
    let m = l % len;
    let p = pow_int(b, q as nat);
    vstd::arithmetic::div_mod::lemma_div_pos_is_pos(l, len);
    vstd::arithmetic::div_mod::lemma_mod_bound(l, len);
    lemma_div_mod_succ(l, len);
    if m < len - 1 {
        assert((len + (m + 1) * (b - 1)) * p == (len + m * (b - 1)) * p + (b - 1) * p)
            by (nonlinear_arith);
    } else {
        assert((l + 1) / len == q + 1);
        assert(pow_int(b, (q + 1) as nat) == b * p);
        assert((len + 0 * (b - 1)) * (b * p) == (len + m * (b - 1)) * p + (b - 1) * p)
            by (nonlinear_arith)
            requires m == len - 1;
    }
}

/// The exponential value curve's incremental form agrees with its closed
/// form exactly at the log-domain level: for a finite base and a level
/// `l >= 0`, multiplying `b^l` by `b` is `b^(l+1)`, saturation included.
pub proof fn lemma_exponential_value_next(b: LogVal, l: int)
    requires
        b is Fin,
        0 <= l,
    ensures
        spec_mul(spec_powi(b, l), b) == spec_powi(b, l + 1),
{
    let mag = val_mag(b);
    let neg = val_neg(b);
    assert(mag * (l + 1) == mag * l + mag) by (nonlinear_arith);
    if l == 0 {
    } else {
        if mag * l > MAG_MAX {
            assert(mag > 0) by (nonlinear_arith)
                requires mag * l > MAG_MAX, l >= 1;
            assert(mag * (l + 1) > MAG_MAX) by (nonlinear_arith)
                requires mag * l > MAG_MAX, mag > 0;
        } else if mag * l < -MAG_MAX {
            assert(mag < 0) by (nonlinear_arith)
                requires mag * l < -(MAG_MAX as int), l >= 1;
            assert(mag * (l + 1) < -MAG_MAX) by (nonlinear_arith)
                requires mag * l < -(MAG_MAX as int), mag < 0;
        }
    }
}

/// The bisection result stays inside its bracket.
proof fn lemma_bisect_bounds(m: int, lo: int, hi: int)
    requires
        lo < hi,
    ensures
        lo <= spec_bisect(m, lo, hi) < hi,
    decreases hi - lo,
{
    if hi - lo > 1 {
        let mid = lo + (hi - lo) / 2;
        assert(lo < mid < hi) by {
            vstd::arithmetic::div_mod::lemma_div_pos_is_pos(hi - lo, 2);
            vstd::arithmetic::div_mod::lemma_div_is_ordered(2, hi - lo, 2);
            vstd::arithmetic::div_mod::lemma_div_decreases(hi - lo, 2);
        }
        if spec_pow10(mid) <= m {
            lemma_bisect_bounds(m, mid, hi);
        } else {
            lemma_bisect_bounds(m, lo, mid);
        }
    }
}

/// The bisection result is monotone in the probed value: a larger value
/// can only drive the search to a larger result.
proof fn lemma_bisect_monotone(m1: int, m2: int, lo: int, hi: int)
    requires
        lo < hi,
        m1 <= m2,
    ensures
        spec_bisect(m1, lo, hi) <= spec_bisect(m2, lo, hi),
    decreases hi - lo,
{
    if hi - lo > 1 {
        let mid = lo + (hi - lo) / 2;
        assert(lo < mid < hi) by {
            vstd::arithmetic::div_mod::lemma_div_pos_is_pos(hi - lo, 2);
            vstd::arithmetic::div_mod::lemma_div_is_ordered(2, hi - lo, 2);
            vstd::arithmetic::div_mod::lemma_div_decreases(hi - lo, 2);
        }
        let p = spec_pow10(mid);
        if p <= m1 {
            lemma_bisect_monotone(m1, m2, mid, hi);
        } else if p > m2 {
            lemma_bisect_monotone(m1, m2, lo, mid);
        } else {
            lemma_bisect_bounds(m1, lo, mid);
            lemma_bisect_bounds(m2, mid, hi);
        }
    }
}

/// The digit count of a positive integer is non-negative.
proof fn lemma_int_exp_nonneg(n: int)
    ensures
        spec_int_exp(n) >= 0,
    decreases n,
{
    if n >= 10 {
        vstd::arithmetic::div_mod::lemma_div_pos_is_pos(n, 10);
        vstd::arithmetic::div_mod::lemma_div_decreases(n, 10);
        lemma_int_exp_nonneg(n / 10);
    }
}

/// The digit count is monotone.
proof fn lemma_int_exp_monotone(n1: int, n2: int)
    requires
        0 <= n1 <= n2,
    ensures
        spec_int_exp(n1) <= spec_int_exp(n2),
    decreases n2,
{
    if n2 < 10 {
    } else if n1 < 10 {
        lemma_int_exp_nonneg(n2 / 10);
    } else {
        vstd::arithmetic::div_mod::lemma_div_pos_is_pos(n2, 10);
        vstd::arithmetic::div_mod::lemma_div_decreases(n2, 10);
        vstd::arithmetic::div_mod::lemma_div_is_ordered(n1, n2, 10);
        lemma_int_exp_monotone(n1 / 10, n2 / 10);
    }
}

/// The fixed-point logarithm of a positive integer is monotone.
proof fn lemma_log_of_int_monotone(n1: int, n2: int)
    requires
        1 <= n1 <= n2,
    ensures
        spec_log_of_int(n1) <= spec_log_of_int(n2),
{
    let e1 = spec_int_exp(n1);
    let e2 = spec_int_exp(n2);
    lemma_int_exp_nonneg(n1);
    lemma_int_exp_monotone(n1, n2);
    lemma_int_exp_in_range(n1);
    lemma_int_exp_in_range(n2);
    let h1 = ten_pow(e1 as u32) as int;
    let h2 = ten_pow(e2 as u32) as int;
    let m1 = (n1 * (SCALE as int) + h1 / 2) / h1;
    let m2 = (n2 * (SCALE as int) + h2 / 2) / h2;
    if e1 == e2 {
        assert(n1 * (SCALE as int) <= n2 * (SCALE as int)) by (nonlinear_arith)
            requires n1 <= n2, SCALE >= 0;
        vstd::arithmetic::div_mod::lemma_div_is_ordered(
            n1 * (SCALE as int) + h1 / 2,
            n2 * (SCALE as int) + h1 / 2,
            h1,
        );
        if m1 >= TEN_SCALE {
            assert(m2 >= TEN_SCALE);
        } else if m2 >= TEN_SCALE {
            lemma_bisect_bounds(m1, 0, SCALE as int);
        } else {
            lemma_bisect_monotone(m1, m2, 0, SCALE as int);
        }
    } else {
        assert(e1 < e2);
        lemma_bisect_bounds(m1, 0, SCALE as int);
        lemma_bisect_bounds(m2, 0, SCALE as int);
        assert((e1 + 1) * (SCALE as int) <= e2 * (SCALE as int)) by (nonlinear_arith)
            requires e1 + 1 <= e2, SCALE >= 0;
    }
}

/// A positive machine integer has at most nineteen digits.
proof fn lemma_int_exp_in_range(n: int)
    requires
        1 <= n,
    ensures
        0 <= spec_int_exp(n) <= 18 || n > i64::MAX,
    decreases n,
{
    lemma_int_exp_nonneg(n);
    if n >= 10 {
        vstd::arithmetic::div_mod::lemma_div_pos_is_pos(n, 10);
        vstd::arithmetic::div_mod::lemma_div_decreases(n, 10);
        lemma_int_exp_in_range(n / 10);
        if n <= i64::MAX {
            lemma_ten_pow_int_exp(n);
        }
    }
}

/// Ten to the digit count brackets the integer from below.
proof fn lemma_ten_pow_int_exp(n: int)
    requires
        1 <= n <= i64::MAX,
    ensures
        0 <= spec_int_exp(n) <= 18,
    decreases n,
{
    lemma_int_exp_nonneg(n);
    lemma_pow_ten_lower(n);
    let e = spec_int_exp(n);
    if e > 18 {
        lemma_pow_int_ten_monotone(19, e as nat);
        assert(pow_int(10, 19) > i64::MAX) by {
            lemma_pow_ten_19();
        }
    }
}

/// `10^(digit count of n) <= 10 * n` for positive `n`.
proof fn lemma_pow_ten_lower(n: int)
    requires
        1 <= n,
    ensures
        pow_int(10, spec_int_exp(n) as nat) <= n,
    decreases n,
{
    lemma_int_exp_nonneg(n);
    if n < 10 {
    } else {
        vstd::arithmetic::div_mod::lemma_div_pos_is_pos(n, 10);
        vstd::arithmetic::div_mod::lemma_div_decreases(n, 10);
        lemma_pow_ten_lower(n / 10);
        lemma_int_exp_nonneg(n / 10);
        let e0 = spec_int_exp(n / 10);
        vstd::arithmetic::div_mod::lemma_fundamental_div_mod(n, 10);
        assert(10 * pow_int(10, e0 as nat) <= 10 * (n / 10)) by (nonlinear_arith)
            requires pow_int(10, e0 as nat) <= n / 10;
        assert(pow_int(10, (e0 + 1) as nat) == 10 * pow_int(10, e0 as nat));
    }
}

/// Integer powers of ten grow with the exponent.
proof fn lemma_pow_int_ten_monotone(a: nat, b: nat)
    requires
        a <= b,
    ensures
        pow_int(10, a) <= pow_int(10, b),
        pow_int(10, a) >= 1,
    decreases b,
{
    if a == b {
        lemma_pow_ten_pos(a);
    } else {
        lemma_pow_int_ten_monotone(a, (b - 1) as nat);
        lemma_pow_ten_pos((b - 1) as nat);
        assert(pow_int(10, b) == 10 * pow_int(10, (b - 1) as nat));
        assert(10 * pow_int(10, (b - 1) as nat) >= pow_int(10, (b - 1) as nat))
            by (nonlinear_arith)
            requires pow_int(10, (b - 1) as nat) >= 1;
    }
}

/// Integer powers of ten are positive.
proof fn lemma_pow_ten_pos(a: nat)
    ensures
        pow_int(10, a) >= 1,
    decreases a,
{
    if a > 0 {
        lemma_pow_ten_pos((a - 1) as nat);
        assert(10 * pow_int(10, (a - 1) as nat) >= 1) by (nonlinear_arith)
            requires pow_int(10, (a - 1) as nat) >= 1;
    }
}

/// `10^19` exceeds the signed machine-word range.
proof fn lemma_pow_ten_19()
    ensures
        pow_int(10, 19) > i64::MAX,
{
    assert(pow_int(10, 0) == 1);
    assert(pow_int(10, 1) == 10);
    assert(pow_int(10, 2) == 100);
    assert(pow_int(10, 3) == 1000);
    assert(pow_int(10, 4) == 10000);
    assert(pow_int(10, 5) == 100000);
    assert(pow_int(10, 6) == 1000000);
    assert(pow_int(10, 7) == 10000000);
    assert(pow_int(10, 8) == 100000000);
    assert(pow_int(10, 9) == 1000000000);
    assert(pow_int(10, 10) == 10000000000);
    assert(pow_int(10, 11) == 100000000000);
    assert(pow_int(10, 12) == 1000000000000);
    assert(pow_int(10, 13) == 10000000000000);
    assert(pow_int(10, 14) == 100000000000000);
    assert(pow_int(10, 15) == 1000000000000000);
    assert(pow_int(10, 16) == 10000000000000000);
    assert(pow_int(10, 17) == 100000000000000000);
    assert(pow_int(10, 18) == 1000000000000000000);
    assert(pow_int(10, 19) == 10000000000000000000);
}

/// The comparison order is antisymmetric: swapping the operands swaps
/// strictly-less and strictly-greater and keeps equality.
pub proof fn lemma_cmp_flip(a: LogVal, b: LogVal)
    ensures
        (spec_cmp(a, b) == Option::Some(Ordering::Less)) == (spec_cmp(b, a) == Option::Some(
            Ordering::Greater,
        )),
        (spec_cmp(a, b) == Option::Some(Ordering::Equal)) == (spec_cmp(b, a) == Option::Some(
            Ordering::Equal,
        )),
{
}

/// Ordering is preserved by construction from machine integers: a larger
/// integer never produces a smaller log number, and a strict order of
/// the log numbers reflects a strict order of the integers. Strictness
/// is not preserved in the other direction: two integers that agree to
/// the kernel's precision share one log number.
pub proof fn lemma_from_int_monotone(a: int, b: int)
    requires
        a <= b,
    ensures
        spec_le(spec_from_int(a), spec_from_int(b)),
        spec_lt(spec_from_int(a), spec_from_int(b)) ==> a < b,
{
    let fa = spec_from_int(a);
    let fb = spec_from_int(b);
    if a == b {
    } else if a < 0 && b >= 0 {
    } else if a == 0 {
        assert(b > 0);
    } else if a > 0 {
        lemma_log_of_int_monotone(a, b);
    } else {
        assert(a <= b < 0);
        lemma_log_of_int_monotone(-b, -a);
    }
}

/// Powers of ten construct exactly: the digit count of `10^k` is `k`,
/// the rounded mantissa lands on the lattice point for one, and the
/// bisection answers zero there, so `fromReal(10^k)` carries the log
/// magnitude `k` exactly. In particular one constructs as the
/// multiplicative identity.
pub proof fn lemma_from_int_pow10_exact(k: int)
    requires
        0 <= k <= 18,
    ensures
        spec_from_int(ten_pow(k as u32) as int) == (LogVal::Fin {
            neg: false,
            mag: k * (SCALE as int),
        }),
    decreases k,
{
    let n = ten_pow(k as u32) as int;
    lemma_int_exp_of_pow10(k);
    let h = n;
    assert((n * (SCALE as int) + h / 2) / h == SCALE as int) by {
        vstd::arithmetic::div_mod::lemma_fundamental_div_mod_converse(
            n * (SCALE as int) + h / 2,
            h,
            SCALE as int,
            h / 2,
        );
    }
    crate::fixedlog::lemma_bisect_low_is_zero(SCALE as int, SCALE as int);
}

/// The digit count of `10^k` is `k`.
proof fn lemma_int_exp_of_pow10(k: int)
    requires
        0 <= k <= 18,
    ensures
        spec_int_exp(ten_pow(k as u32) as int) == k,
    decreases k,
{
    if k > 0 {
        lemma_int_exp_of_pow10(k - 1);
        assert((ten_pow(k as u32) as int) / 10 == ten_pow((k - 1) as u32) as int);
    }
}

/// Adding the canonical zero on either side is an identity.
pub proof fn lemma_add_zero(x: LogVal)
    ensures
        spec_add(x, LogVal::Zero) == x,
        spec_add(LogVal::Zero, x) == x,
{
    if x is Nan {
    }
}

/// Multiplying a representable value by one is an identity.
pub proof fn lemma_mul_one(x: LogVal)
    requires
        crate::lognum::wf_val(x),
    ensures
        spec_mul(x, LogVal::Fin { neg: false, mag: 0 }) == x,
        spec_mul(LogVal::Fin { neg: false, mag: 0 }, x) == x,
{
}

/// Log-domain multiplication is commutative.
pub proof fn lemma_mul_comm(x: LogVal, y: LogVal)
    ensures
        spec_mul(x, y) == spec_mul(y, x),
{
}

/// Negation is an involution.
pub proof fn lemma_neg_involution(x: LogVal)
    ensures
        spec_neg(spec_neg(x)) == x,
{
}

/// The comparison order is total except when either operand is
/// not-a-number, and transitive where decided.
pub proof fn lemma_cmp_total(a: LogVal, b: LogVal, c: LogVal)
    requires
        !(a is Nan),
        !(b is Nan),
        !(c is Nan),
    ensures
        spec_cmp(a, b) is Some,
        spec_cmp(a, a) == Option::Some(Ordering::Equal),
        spec_lt(a, b) && spec_lt(b, c) ==> spec_lt(a, c),
{
}

} // verus!
