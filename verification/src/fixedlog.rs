//! Fixed-point arithmetic kernel for base-10 logarithms.
//!
//! A log magnitude is an `i64` holding nanobels: `m` stands for the real
//! number `m / SCALE`, so `SCALE` is one full decade. All kernel routines
//! work on non-negative inputs and mirror their own spec functions exactly.

use vstd::prelude::*;

verus! {

/// One decade in fixed-point units: nine decimal places.
pub const SCALE: i64 = 1_000_000_000;

/// Half of `SCALE`, used for round-to-nearest divisions.
pub const HALF_SCALE: i64 = 500_000_000;

/// Ten decades in fixed-point units: the mantissa range is `[SCALE, TEN_SCALE)`.
pub const TEN_SCALE: i64 = 10_000_000_000;

/// Product of two fixed-point values, rounded to nearest.
pub open spec fn spec_mul_fixed(a: int, b: int) -> int {
    (a * b + HALF_SCALE) / (SCALE as int)
}

/// Fixed-point multiply with round-to-nearest, for values up to ten decades.
pub fn mul_fixed(a: i64, b: i64) -> (r: i64)
    requires
        0 <= a <= TEN_SCALE,
        0 <= b <= TEN_SCALE,
    ensures
        r == spec_mul_fixed(a as int, b as int),
        0 <= r <= 100 * (SCALE as int) + 1,
{
    proof {
        assert((a as int) * (b as int) <= (TEN_SCALE as int) * (TEN_SCALE as int))
            by (nonlinear_arith)
            requires 0 <= a <= TEN_SCALE, 0 <= b <= TEN_SCALE;
        assert((a as int) * (b as int) >= 0) by (nonlinear_arith)
            requires 0 <= a, 0 <= b;
        vstd::arithmetic::div_mod::lemma_div_is_ordered(
            (a as int) * (b as int) + HALF_SCALE,
            (TEN_SCALE as int) * (TEN_SCALE as int) + HALF_SCALE,
            SCALE as int,
        );
        assert(((TEN_SCALE as int) * (TEN_SCALE as int) + HALF_SCALE) / (SCALE as int)
            <= 100 * (SCALE as int) + 1) by (nonlinear_arith);
        vstd::arithmetic::div_mod::lemma_div_is_ordered(
            0,
            (a as int) * (b as int) + HALF_SCALE,
            SCALE as int,
        );
    }
    (((a as i128) * (b as i128) + (HALF_SCALE as i128)) / (SCALE as i128)) as i64
}

/// Powers of two up to `2^29`, the bit weights of a fractional magnitude.
#[verifier::allow_in_spec]
pub fn two_pow(k: u32) -> i64
    requires
        k < 30,
    returns
        (match k {
            0u32 => 1i64,
            1u32 => 2i64,
            2u32 => 4i64,
            3u32 => 8i64,
            4u32 => 16i64,
            5u32 => 32i64,
            6u32 => 64i64,
            7u32 => 128i64,
            8u32 => 256i64,
            9u32 => 512i64,
            10u32 => 1024i64,
            11u32 => 2048i64,
            12u32 => 4096i64,
            13u32 => 8192i64,
            14u32 => 16384i64,
            15u32 => 32768i64,
            16u32 => 65536i64,
            17u32 => 131072i64,
            18u32 => 262144i64,
            19u32 => 524288i64,
            20u32 => 1048576i64,
            21u32 => 2097152i64,
            22u32 => 4194304i64,
            23u32 => 8388608i64,
            24u32 => 16777216i64,
            25u32 => 33554432i64,
            26u32 => 67108864i64,
            27u32 => 134217728i64,
            28u32 => 268435456i64,
            _ => 536870912i64,
        }),
{
    match k {
        0u32 => 1i64,
        1u32 => 2i64,
        2u32 => 4i64,
        3u32 => 8i64,
        4u32 => 16i64,
        5u32 => 32i64,
        6u32 => 64i64,
        7u32 => 128i64,
        8u32 => 256i64,
        9u32 => 512i64,
        10u32 => 1024i64,
        11u32 => 2048i64,
        12u32 => 4096i64,
        13u32 => 8192i64,
        14u32 => 16384i64,
        15u32 => 32768i64,
        16u32 => 65536i64,
        17u32 => 131072i64,
        18u32 => 262144i64,
        19u32 => 524288i64,
        20u32 => 1048576i64,
        21u32 => 2097152i64,
        22u32 => 4194304i64,
        23u32 => 8388608i64,
        24u32 => 16777216i64,
        25u32 => 33554432i64,
        26u32 => 67108864i64,
        27u32 => 134217728i64,
        28u32 => 268435456i64,
        _ => 536870912i64,
    }
}

/// Fixed-point values of `10^(2^k / SCALE)`, the factors of the binary
/// exponentiation that evaluates `10^f` for a fractional `f`.
#[verifier::allow_in_spec]
pub fn pow10_bit(k: u32) -> i64
    requires
        k < 30,
    returns
        (match k {
            0u32 => 1000000002i64,
            1u32 => 1000000005i64,
            2u32 => 1000000009i64,
            3u32 => 1000000018i64,
            4u32 => 1000000037i64,
            5u32 => 1000000074i64,
            6u32 => 1000000147i64,
            7u32 => 1000000295i64,
            8u32 => 1000000589i64,
            9u32 => 1000001179i64,
            10u32 => 1000002358i64,
            11u32 => 1000004716i64,
            12u32 => 1000009431i64,
            13u32 => 1000018863i64,
            14u32 => 1000037726i64,
            15u32 => 1000075454i64,
            16u32 => 1000150914i64,
            17u32 => 1000301850i64,
            18u32 => 1000603791i64,
            19u32 => 1001207947i64,
            20u32 => 1002417353i64,
            21u32 => 1004840549i64,
            22u32 => 1009704528i64,
            23u32 => 1019503235i64,
            24u32 => 1039386845i64,
            25u32 => 1080325014i64,
            26u32 => 1167102136i64,
            27u32 => 1362127397i64,
            28u32 => 1855391044i64,
            _ => 3442475927i64,
        }),
{
    match k {
        0u32 => 1000000002i64,
        1u32 => 1000000005i64,
        2u32 => 1000000009i64,
        3u32 => 1000000018i64,
        4u32 => 1000000037i64,
        5u32 => 1000000074i64,
        6u32 => 1000000147i64,
        7u32 => 1000000295i64,
        8u32 => 1000000589i64,
        9u32 => 1000001179i64,
        10u32 => 1000002358i64,
        11u32 => 1000004716i64,
        12u32 => 1000009431i64,
        13u32 => 1000018863i64,
        14u32 => 1000037726i64,
        15u32 => 1000075454i64,
        16u32 => 1000150914i64,
        17u32 => 1000301850i64,
        18u32 => 1000603791i64,
        19u32 => 1001207947i64,
        20u32 => 1002417353i64,
        21u32 => 1004840549i64,
        22u32 => 1009704528i64,
        23u32 => 1019503235i64,
        24u32 => 1039386845i64,
        25u32 => 1080325014i64,
        26u32 => 1167102136i64,
        27u32 => 1362127397i64,
        28u32 => 1855391044i64,
        _ => 3442475927i64,
    }
}

/// Integer powers of ten up to `10^18`.
#[verifier::allow_in_spec]
pub fn ten_pow(q: u32) -> i64
    requires
        q <= 18,
    returns
        (match q {
            0u32 => 1i64,
            1u32 => 10i64,
            2u32 => 100i64,
            3u32 => 1000i64,
            4u32 => 10000i64,
            5u32 => 100000i64,
            6u32 => 1000000i64,
            7u32 => 10000000i64,
            8u32 => 100000000i64,
            9u32 => 1000000000i64,
            10u32 => 10000000000i64,
            11u32 => 100000000000i64,
            12u32 => 1000000000000i64,
            13u32 => 10000000000000i64,
            14u32 => 100000000000000i64,
            15u32 => 1000000000000000i64,
            16u32 => 10000000000000000i64,
            17u32 => 100000000000000000i64,
            _ => 1000000000000000000i64,
        }),
{
    match q {
        0u32 => 1i64,
        1u32 => 10i64,
        2u32 => 100i64,
        3u32 => 1000i64,
        4u32 => 10000i64,
        5u32 => 100000i64,
        6u32 => 1000000i64,
        7u32 => 10000000i64,
        8u32 => 100000000i64,
        9u32 => 1000000000i64,
        10u32 => 10000000000i64,
        11u32 => 100000000000i64,
        12u32 => 1000000000000i64,
        13u32 => 10000000000000i64,
        14u32 => 100000000000000i64,
        15u32 => 1000000000000000i64,
        16u32 => 10000000000000000i64,
        17u32 => 100000000000000000i64,
        _ => 1000000000000000000i64,
    }
}

/// Partial binary-exponentiation product: the factors for the low `k` bits
/// of `f`, clamped into `[SCALE, TEN_SCALE]`.
pub open spec fn spec_pow10_rec(f: int, k: nat) -> int
    decreases k,
{
    if k == 0 {
        SCALE as int
    } else {
        let p = spec_pow10_rec(f, (k - 1) as nat);
        if (f / (two_pow((k - 1) as u32) as int)) % 2 == 1 {
            let q = spec_mul_fixed(p, pow10_bit((k - 1) as u32) as int);
            if q > TEN_SCALE { TEN_SCALE as int } else { q }
        } else {
            p
        }
    }
}

/// `10^(f / SCALE)` in fixed point, for a fractional magnitude `f`.
pub open spec fn spec_pow10(f: int) -> int {
    spec_pow10_rec(f, 30)
}

/// Lower bound of the fixed-point product when both factors are at least one.
proof fn lemma_mul_fixed_at_least(a: int, b: int)
    requires
        SCALE <= a,
        SCALE <= b,
    ensures
        spec_mul_fixed(a, b) >= a,
{
    assert(a * b >= a * (SCALE as int)) by (nonlinear_arith)
        requires SCALE <= b, a >= 0;
    vstd::arithmetic::div_mod::lemma_div_is_ordered(
        a * (SCALE as int),
        a * b + HALF_SCALE,
        SCALE as int,
    );
    assert(a * (SCALE as int) / (SCALE as int) == a) by (nonlinear_arith);
}

/// Evaluates `10^(f / SCALE)` for `0 <= f <= SCALE` by binary exponentiation.
pub fn pow10_frac(f: i64) -> (r: i64)
    requires
        0 <= f <= SCALE,
    ensures
        r == spec_pow10(f as int),
        SCALE <= r <= TEN_SCALE,
{
    let mut acc: i64 = SCALE;
    let mut k: u32 = 0;
    while k < 30
        invariant
            0 <= f <= SCALE,
            k <= 30,
            acc == spec_pow10_rec(f as int, k as nat),
            SCALE <= acc <= TEN_SCALE,
        decreases 30 - k,
    {
        if (f / two_pow(k)) % 2 == 1 {
            let c = pow10_bit(k);
            let m = mul_fixed(acc, c);
            proof {
                lemma_mul_fixed_at_least(acc as int, c as int);
            }
            acc = if m > TEN_SCALE { TEN_SCALE } else { m };
        }
        k = k + 1;
    }
    acc
}

/// The partial products of the binary exponentiation stay within one
/// decade, by construction of the clamp.
pub proof fn lemma_pow10_rec_range(f: int, k: nat)
    ensures
        SCALE <= spec_pow10_rec(f, k) <= TEN_SCALE,
    decreases k,
{
    if k > 0 {
        lemma_pow10_rec_range(f, (k - 1) as nat);
        if (f / (two_pow((k - 1) as u32) as int)) % 2 == 1 {
            let p = spec_pow10_rec(f, (k - 1) as nat);
            lemma_mul_fixed_at_least(p, pow10_bit((k - 1) as u32) as int);
        }
    }
}

/// The full product stays within one decade.
pub proof fn lemma_pow10_range(f: int)
    ensures
        SCALE <= spec_pow10(f) <= TEN_SCALE,
{
    lemma_pow10_rec_range(f, 30);
}

/// A factor at least one unit above one decade lifts the fixed-point
/// product at least one unit above one decade.
proof fn lemma_mul_fixed_lifts(p: int, c: int)
    requires
        SCALE <= p,
        SCALE + 2 <= c,
    ensures
        spec_mul_fixed(p, c) >= SCALE + 1,
{
    assert(p * c >= (SCALE as int) * (SCALE + 2)) by (nonlinear_arith)
        requires SCALE <= p, SCALE + 2 <= c, p >= 0;
    vstd::arithmetic::div_mod::lemma_div_is_ordered(
        (SCALE as int) * (SCALE + 2),
        p * c + HALF_SCALE,
        SCALE as int,
    );
    assert(((SCALE as int) * (SCALE + 2)) / (SCALE as int) == SCALE + 2) by {
        vstd::arithmetic::div_mod::lemma_div_multiples_vanish(SCALE + 2, SCALE as int);
    }
}

/// If any of the low `k` bits of `f` is set, the partial product already
/// sits at least one unit above one decade.
proof fn lemma_pow10_rec_lb(f: int, k: nat)
    requires
        0 <= f,
        1 <= k <= 30,
        f % (if k == 30 { 1073741824int } else { two_pow(k as u32) as int }) != 0,
    ensures
        spec_pow10_rec(f, k) >= SCALE + 1,
    decreases k,
{
    let d = two_pow((k - 1) as u32) as int;
    let bit = (f / d) % 2;
    lemma_pow10_rec_range(f, (k - 1) as nat);
    let p = spec_pow10_rec(f, (k - 1) as nat);
    let c = pow10_bit((k - 1) as u32) as int;
    vstd::arithmetic::div_mod::lemma_breakdown(f, d, 2);
    assert(f % (d * 2) == d * ((f / d) % 2) + f % d);
    assert((if k == 30 { 1073741824int } else { two_pow(k as u32) as int }) == d * 2);
    if bit == 1 {
        lemma_mul_fixed_lifts(p, c);
    } else {
        vstd::arithmetic::div_mod::lemma_mod_bound(f, d);
        assert(f % d != 0);
        lemma_pow10_rec_lb(f, (k - 1) as nat);
    }
}

/// For any positive fraction the power of ten exceeds one decade by at
/// least one unit: the factor table holds no unit entries, so a set bit
/// always lifts the product.
pub proof fn lemma_pow10_positive_lb(f: int)
    requires
        1 <= f <= SCALE,
    ensures
        spec_pow10(f) >= SCALE + 1,
{
    vstd::arithmetic::div_mod::lemma_small_mod(f as nat, 1073741824nat);
    lemma_pow10_rec_lb(f, 30);
}

/// The bisection answers zero exactly when the probe does not reach the
/// second lattice point: in particular the logarithm of one is zero.
pub proof fn lemma_bisect_low_is_zero(m: int, hi: int)
    requires
        m <= SCALE,
        1 <= hi <= SCALE,
    ensures
        spec_bisect(m, 0, hi) == 0,
    decreases hi,
{
    if hi > 1 {
        let mid = 0 + (hi - 0) / 2;
        assert(1 <= mid < hi) by {
            vstd::arithmetic::div_mod::lemma_div_pos_is_pos(hi, 2);
            vstd::arithmetic::div_mod::lemma_div_is_ordered(2, hi, 2);
            vstd::arithmetic::div_mod::lemma_div_decreases(hi, 2);
        }
        lemma_pow10_positive_lb(mid);
        lemma_bisect_low_is_zero(m, mid);
    }
}

/// Bisection for the inverse of `spec_pow10` on `[lo, hi)`.
pub open spec fn spec_bisect(m: int, lo: int, hi: int) -> int
    decreases hi - lo,
{
    if hi - lo <= 1 {
        lo
    } else {
        let mid = lo + (hi - lo) / 2;
        if spec_pow10(mid) <= m {
            spec_bisect(m, mid, hi)
        } else {
            spec_bisect(m, lo, mid)
        }
    }
}

/// `log10(m / SCALE)` in fixed point, for a mantissa `m` in `[SCALE, TEN_SCALE)`.
pub open spec fn spec_log10(m: int) -> int {
    spec_bisect(m, 0, SCALE as int)
}

/// Evaluates the fractional base-10 logarithm of a mantissa by bisection
/// against `pow10_frac`.
pub fn log10_fixed(m: i64) -> (r: i64)
    requires
        SCALE <= m < TEN_SCALE,
    ensures
        r == spec_log10(m as int),
        0 <= r < SCALE,
{
    let mut lo: i64 = 0;
    let mut hi: i64 = SCALE;
    while hi - lo > 1
        invariant
            SCALE <= m < TEN_SCALE,
            0 <= lo < hi <= SCALE,
            spec_bisect(m as int, lo as int, hi as int) == spec_log10(m as int),
        decreases hi - lo,
    {
        let mid = lo + (hi - lo) / 2;
        if pow10_frac(mid) <= m {
            lo = mid;
        } else {
            hi = mid;
        }
    }
    lo
}

/// `10^(d / SCALE)` in fixed point for `d <= 0`, rounded to nearest; zero
/// once the value falls below half a unit.
pub open spec fn spec_pow10_neg(d: int) -> int {
    let q = (-d) / (SCALE as int);
    let r = (-d) % (SCALE as int);
    if q >= 19 {
        0
    } else if r == 0 {
        let h = ten_pow(q as u32) as int;
        let t = (SCALE + h / 2) / h;
        if t > SCALE { SCALE as int } else { t }
    } else if q >= 18 {
        0
    } else {
        let h = ten_pow((q + 1) as u32) as int;
        let t = (spec_pow10(SCALE - r) + h / 2) / h;
        if t > SCALE { SCALE as int } else { t }
    }
}

/// Evaluates `10^(d / SCALE)` for a non-positive delta of at most twenty
/// decades; anything smaller is an exact fixed-point zero anyway.
pub fn pow10_neg(d: i64) -> (t: i64)
    requires
        -20 * SCALE <= d <= 0,
    ensures
        t == spec_pow10_neg(d as int),
        0 <= t <= SCALE,
{
    let n = -d;
    let q = n / SCALE;
    let r = n % SCALE;
    if q >= 19 {
        0
    } else if r == 0 {
        let h = ten_pow(q as u32);
        let t = (SCALE + h / 2) / h;
        proof {
            vstd::arithmetic::div_mod::lemma_div_is_ordered(0, SCALE + h / 2, h as int);
        }
        if t > SCALE { SCALE } else { t }
    } else if q >= 18 {
        0
    } else {
        let h = ten_pow((q + 1) as u32);
        let p = pow10_frac(SCALE - r);
        let t = (p + h / 2) / h;
        proof {
            vstd::arithmetic::div_mod::lemma_div_is_ordered(0, p + h / 2, h as int);
        }
        if t > SCALE { SCALE } else { t }
    }
}

/// `log10(1 + 10^(d / SCALE))` in fixed point: the magnitude correction a
/// same-sign addition applies to its larger operand.
pub open spec fn spec_log_lift(d: int) -> int {
    spec_log10(SCALE + spec_pow10_neg(d))
}

/// Evaluates the same-sign addition correction.
pub fn log_lift(d: i64) -> (r: i64)
    requires
        -20 * SCALE <= d <= 0,
    ensures
        r == spec_log_lift(d as int),
        0 <= r < SCALE,
{
    let t = pow10_neg(d);
    log10_fixed(SCALE + t)
}

/// Repeated decimal upscaling of a positive value below `SCALE` until it
/// reaches the mantissa range; the pair is (decades shifted, mantissa).
pub open spec fn spec_norm_up(u: int) -> (int, int)
    decreases TEN_SCALE - u,
{
    if u <= 0 {
        (0, 0)
    } else if u >= SCALE {
        (0, u)
    } else {
        let (e, m) = spec_norm_up(10 * u);
        (e + 1, m)
    }
}

/// `log10(1 - 10^(d / SCALE))` in fixed point: the magnitude correction an
/// opposite-sign addition applies to its larger operand. `None` means exact
/// cancellation, a correction of minus infinity.
pub open spec fn spec_log_drop(d: int) -> Option<int> {
    let u = SCALE - spec_pow10_neg(d);
    if u <= 0 {
        None
    } else {
        let (e, m) = spec_norm_up(u);
        Some(spec_log10(m) - e * SCALE)
    }
}

/// Evaluates the opposite-sign addition correction.
pub fn log_drop(d: i64) -> (r: Option<i64>)
    requires
        -20 * SCALE <= d <= 0,
    ensures
        (r matches Some(v) && spec_log_drop(d as int) == Some(v as int))
            || (r is None && spec_log_drop(d as int) is None),
        r matches Some(v) ==> -10 * SCALE <= v < SCALE,
{
    let t = pow10_neg(d);
    let u0 = SCALE - t;
    if u0 <= 0 {
        return None;
    }
    let mut u: i64 = u0;
    let mut e: i64 = 0;
    while u < SCALE
        invariant
            1 <= u < TEN_SCALE,
            0 <= e <= 9,
            spec_norm_up(u0 as int) == (e + spec_norm_up(u as int).0, spec_norm_up(u as int).1),
            u >= ten_pow(e as u32),
        decreases TEN_SCALE - u,
    {
        u = 10 * u;
        e = e + 1;
    }
    let k = log10_fixed(u);
    Some(k - e * SCALE)
}

/// One step of the digit-count loop: shifting out the lowest decimal digit
/// keeps the decade brackets around `n` and steps the digit count.
proof fn lemma_int_exp_step(nn: int, e: int, n: int)
    requires
        10 <= nn,
        0 <= e <= 18,
        n <= i64::MAX,
        (ten_pow(e as u32) as int) * nn <= n,
        n < (ten_pow(e as u32) as int) * (nn + 1),
    ensures
        e <= 17,
        spec_int_exp(nn) == 1 + spec_int_exp(nn / 10),
        (ten_pow((e + 1) as u32) as int) * (nn / 10) <= n,
        n < (ten_pow((e + 1) as u32) as int) * (nn / 10 + 1),
{
    let h = ten_pow(e as u32) as int;
    let q = nn / 10;
    let r = nn % 10;
    vstd::arithmetic::div_mod::lemma_fundamental_div_mod(nn, 10);
    assert(nn == 10 * q + r);
    assert(0 <= r < 10);
    if e == 18 {
        assert(h * nn >= h * 10) by (nonlinear_arith)
            requires nn >= 10, h >= 0;
        assert(false);
    }
    let h10 = ten_pow((e + 1) as u32) as int;
    assert(h10 == 10 * h);
    assert(h10 * q <= h * nn) by (nonlinear_arith)
        requires h >= 0, h10 == 10 * h, 10 * q <= nn;
    assert(h * (nn + 1) <= h10 * (q + 1)) by (nonlinear_arith)
        requires h >= 0, h10 == 10 * h, nn + 1 <= 10 * (q + 1);
}

/// Bracketing `n` between consecutive decades puts the rounded fixed-point
/// mantissa `(n * SCALE + h/2) / h` inside the decade range.
proof fn lemma_mantissa_range(n: int, e: int, nn: int)
    requires
        0 <= e <= 18,
        1 <= nn <= 9,
        (ten_pow(e as u32) as int) * nn <= n,
        n < (ten_pow(e as u32) as int) * (nn + 1),
    ensures
        SCALE <= (n * SCALE + (ten_pow(e as u32) as int) / 2) / (ten_pow(e as u32) as int)
            <= TEN_SCALE,
{
    let h = ten_pow(e as u32) as int;
    let s = SCALE as int;
    assert(h >= 1);
    assert(h * 1 <= n) by (nonlinear_arith)
        requires h * nn <= n, nn >= 1, h >= 1;
    assert(h * s <= n * s) by (nonlinear_arith)
        requires h <= n, s >= 0;
    vstd::arithmetic::div_mod::lemma_div_is_ordered(h * s, n * s + h / 2, h);
    assert((h * s) / h == s) by {
        vstd::arithmetic::div_mod::lemma_div_multiples_vanish(s, h);
    }
    assert(n < h * 10) by (nonlinear_arith)
        requires n < h * (nn + 1), nn + 1 <= 10, h >= 1;
    assert(n * s <= (h * 10 - 1) * s) by (nonlinear_arith)
        requires n <= h * 10 - 1, s >= 0;
    assert((h * 10 - 1) * s + h / 2 <= (10 * s + 1) * h - 1) by (nonlinear_arith)
        requires h >= 1, s >= 2;
    vstd::arithmetic::div_mod::lemma_div_is_ordered(n * s + h / 2, (10 * s + 1) * h - 1, h);
    assert(((10 * s + 1) * h - 1) / h == 10 * s) by {
        vstd::arithmetic::div_mod::lemma_fundamental_div_mod_converse(
            (10 * s + 1) * h - 1,
            h,
            10 * s,
            h - 1,
        );
    }
}

/// Number of decimal digits of a positive integer, less one.
pub open spec fn spec_int_exp(n: int) -> int
    decreases n,
{
    if n < 10 {
        0
    } else {
        1 + spec_int_exp(n / 10)
    }
}

/// `log10(n)` in fixed point for a positive integer `n`: decompose into a
/// mantissa in the decade range and an integer exponent, rounding the
/// mantissa to nearest.
pub open spec fn spec_log_of_int(n: int) -> int {
    let e = spec_int_exp(n);
    let h = ten_pow(e as u32) as int;
    let m = (n * SCALE + h / 2) / h;
    if m >= TEN_SCALE {
        (e + 1) * SCALE
    } else {
        e * SCALE + spec_log10(m)
    }
}

/// Evaluates the fixed-point logarithm of a positive machine integer.
pub fn log_of_int(n: i64) -> (r: i64)
    requires
        1 <= n,
    ensures
        r == spec_log_of_int(n as int),
        0 <= r <= 19 * SCALE,
{
    let mut nn: i64 = n;
    let mut e: u32 = 0;
    while nn >= 10
        invariant
            1 <= nn,
            e <= 18,
            n <= i64::MAX,
            spec_int_exp(n as int) == e + spec_int_exp(nn as int),
            (ten_pow(e) as int) * (nn as int) <= n as int,
            (n as int) < (ten_pow(e) as int) * (nn as int + 1),
        decreases nn,
    {
        proof {
            lemma_int_exp_step(nn as int, e as int, n as int);
        }
        nn = nn / 10;
        e = e + 1;
    }
    proof {
        assert(spec_int_exp(nn as int) == 0);
        lemma_mantissa_range(n as int, e as int, nn as int);
    }
    let h = ten_pow(e);
    let m128 = ((n as i128) * (SCALE as i128) + (h as i128) / 2) / (h as i128);
    let m = m128 as i64;
    if m >= TEN_SCALE {
        proof {
            assert((e as int + 1) * SCALE <= 19 * SCALE) by (nonlinear_arith)
                requires e <= 18;
        }
        (e as i64 + 1) * SCALE
    } else {
        let k = log10_fixed(m);
        proof {
            assert((e as int) * SCALE + k <= 19 * SCALE) by (nonlinear_arith)
                requires e <= 18, k < SCALE;
            assert((e as int) * SCALE + k >= 0) by (nonlinear_arith)
                requires e >= 0, k >= 0;
        }
        (e as i64) * SCALE + k
    }
}

} // verus!
