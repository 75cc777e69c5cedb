//! Signed log-domain numbers.
//!
//! A `LogNum` stands for `sign * 10^(magnitude)`, with the base-10 log
//! magnitude held in fixed point (`fixedlog::SCALE` units per decade).
//! Multiplication, division, powers and comparison are exact integer
//! arithmetic on magnitudes; addition and subtraction go through the
//! fixed-point log kernel. Zero is the canonical value with magnitude
//! minus infinity and positive sign; magnitudes past `MAG_MAX` saturate
//! to signed infinity, and magnitudes below `-MAG_MAX` collapse to zero.

use vstd::prelude::*;
use core::cmp::Ordering;
use crate::fixedlog::{
    SCALE, HALF_SCALE, TEN_SCALE, spec_log_lift, spec_log_drop, spec_log_of_int,
    spec_pow10_neg, ten_pow, log_lift, log_drop, log_of_int, pow10_neg, pow10_frac,
    spec_pow10,
};

verus! {

/// Largest representable finite log magnitude, nine billion decades.
pub const MAG_MAX: i64 = 9_000_000_000_000_000_000;

/// Saturation bound for conversions of a log number to a fixed-point scalar.
pub const SCALED_SAT: i64 = 4_000_000_000_000_000_000;

/// Mathematical value of a log number: exact zero, a signed finite
/// magnitude, a signed infinity, or not-a-number.
pub enum LogVal {
    Zero,
    Fin { neg: bool, mag: int },
    Inf { neg: bool },
    Nan,
}

/// A finite view magnitude stays inside the representable band.
pub open spec fn wf_val(v: LogVal) -> bool {
    v matches LogVal::Fin { neg, mag } ==> -MAG_MAX <= mag <= MAG_MAX
}

/// Runtime representation of the log magnitude.
#[derive(Clone, Copy, Debug, PartialEq, Eq, Structural)]
pub enum MagRep {
    NegInf,
    Fin(i64),
    PosInf,
    Nan,
}

/// The magnitude class of a log number: exact zero, infinite,
/// not-a-number, or an ordinary finite magnitude.
#[derive(Clone, Copy, Debug, PartialEq, Eq, Structural)]
pub enum FpClass {
    Zero,
    Infinite,
    Nan,
    Normal,
}

/// Signed number held as (sign, base-10 log of magnitude).
#[derive(Clone, Copy, Debug, PartialEq, Eq, Structural)]
pub struct LogNum {
    sign: i8,
    mag: MagRep,
}

impl View for LogNum {
    type V = LogVal;

    closed spec fn view(&self) -> LogVal {
        match self.mag {
            MagRep::NegInf => LogVal::Zero,
            MagRep::Fin(v) => LogVal::Fin { neg: self.sign == -1, mag: v as int },
            MagRep::PosInf => LogVal::Inf { neg: self.sign == -1 },
            MagRep::Nan => LogVal::Nan,
        }
    }
}

impl LogNum {
    #[verifier::type_invariant]
    spec fn type_inv(self) -> bool {
        &&& (self.sign == 1 || self.sign == -1)
        &&& (self.mag is NegInf ==> self.sign == 1)
        &&& (self.mag is Nan ==> self.sign == 1)
        &&& (self.mag matches MagRep::Fin(v) ==> -MAG_MAX <= v <= MAG_MAX)
    }
}

/// Negation: flip the sign, keep the magnitude; zero stays canonical zero.
pub open spec fn spec_neg(a: LogVal) -> LogVal {
    match a {
        LogVal::Zero => LogVal::Zero,
        LogVal::Fin { neg, mag } => LogVal::Fin { neg: !neg, mag },
        LogVal::Inf { neg } => LogVal::Inf { neg: !neg },
        LogVal::Nan => LogVal::Nan,
    }
}

/// Sign flag of a finite or infinite value; zero counts as positive.
pub open spec fn val_neg(a: LogVal) -> bool {
    match a {
        LogVal::Zero => false,
        LogVal::Fin { neg, mag } => neg,
        LogVal::Inf { neg } => neg,
        LogVal::Nan => false,
    }
}

/// Finite magnitude of a value; meaningful only for `Fin`.
pub open spec fn val_mag(a: LogVal) -> int {
    match a {
        LogVal::Fin { neg, mag } => mag,
        _ => 0,
    }
}

/// Addition in log space. The dominant operand is the one with the larger
/// magnitude; its magnitude is corrected by the log kernel and its sign is
/// kept. Equal magnitudes of opposite sign cancel exactly to zero. A zero
/// operand is an identity, not-a-number propagates, and infinities follow
/// the dominant operand (opposing infinities keep the left one).
pub open spec fn spec_add(a: LogVal, b: LogVal) -> LogVal {
    if a is Nan || b is Nan {
        LogVal::Nan
    } else if a is Zero {
        b
    } else if b is Zero {
        a
    } else if a is Inf {
        a
    } else if b is Inf {
        b
    } else {
        let (hn, hm, ln_, lm) = if val_mag(b) <= val_mag(a) {
            (val_neg(a), val_mag(a), val_neg(b), val_mag(b))
        } else {
            (val_neg(b), val_mag(b), val_neg(a), val_mag(a))
        };
        let d = lm - hm;
        let dd = if d < -20 * SCALE { -20 * (SCALE as int) } else { d };
        if hn == ln_ {
            let m = hm + spec_log_lift(dd);
            if m > MAG_MAX {
                LogVal::Inf { neg: hn }
            } else {
                LogVal::Fin { neg: hn, mag: m }
            }
        } else {
            match spec_log_drop(dd) {
                Option::None => LogVal::Zero,
                Option::Some(v) => {
                    let m = hm + v;
                    if m < -MAG_MAX {
                        LogVal::Zero
                    } else if m > MAG_MAX {
                        LogVal::Inf { neg: hn }
                    } else {
                        LogVal::Fin { neg: hn, mag: m }
                    }
                },
            }
        }
    }
}

/// Subtraction is addition of the negation.
pub open spec fn spec_sub(a: LogVal, b: LogVal) -> LogVal {
    spec_add(a, spec_neg(b))
}

/// Multiplication: add magnitudes, multiply signs. Zero times infinity is
/// not a number; overflowing magnitudes saturate to infinity, underflowing
/// ones collapse to zero.
pub open spec fn spec_mul(a: LogVal, b: LogVal) -> LogVal {
    if a is Nan || b is Nan {
        LogVal::Nan
    } else if a is Zero {
        if b is Inf { LogVal::Nan } else { LogVal::Zero }
    } else if b is Zero {
        if a is Inf { LogVal::Nan } else { LogVal::Zero }
    } else if a is Inf || b is Inf {
        LogVal::Inf { neg: val_neg(a) != val_neg(b) }
    } else {
        let m = val_mag(a) + val_mag(b);
        let n = val_neg(a) != val_neg(b);
        if m > MAG_MAX {
            LogVal::Inf { neg: n }
        } else if m < -MAG_MAX {
            LogVal::Zero
        } else {
            LogVal::Fin { neg: n, mag: m }
        }
    }
}

/// Division: subtract magnitudes, multiply signs. Zero over zero and
/// infinity over infinity are not numbers; a finite value over zero is a
/// signed infinity.
pub open spec fn spec_div(a: LogVal, b: LogVal) -> LogVal {
    if a is Nan || b is Nan {
        LogVal::Nan
    } else if a is Zero {
        if b is Zero { LogVal::Nan } else { LogVal::Zero }
    } else if a is Inf {
        if b is Inf { LogVal::Nan } else { LogVal::Inf { neg: val_neg(a) != val_neg(b) } }
    } else if b is Zero {
        LogVal::Inf { neg: val_neg(a) }
    } else if b is Inf {
        LogVal::Zero
    } else {
        let m = val_mag(a) - val_mag(b);
        let n = val_neg(a) != val_neg(b);
        if m > MAG_MAX {
            LogVal::Inf { neg: n }
        } else if m < -MAG_MAX {
            LogVal::Zero
        } else {
            LogVal::Fin { neg: n, mag: m }
        }
    }
}

/// Integer power: scale the magnitude by the exponent; the sign follows the
/// exponent's parity. A zeroth power of zero or infinity is not a number.
pub open spec fn spec_powi(a: LogVal, n: int) -> LogVal {
    if a is Nan {
        LogVal::Nan
    } else if n == 0 {
        if a is Fin { LogVal::Fin { neg: false, mag: 0 } } else { LogVal::Nan }
    } else if a is Zero {
        if n > 0 { LogVal::Zero } else { LogVal::Inf { neg: false } }
    } else if a is Inf {
        if n > 0 { LogVal::Inf { neg: val_neg(a) && n % 2 != 0 } } else { LogVal::Zero }
    } else {
        let m = val_mag(a) * n;
        let ng = val_neg(a) && n % 2 != 0;
        if m > MAG_MAX {
            LogVal::Inf { neg: ng }
        } else if m < -MAG_MAX {
            LogVal::Zero
        } else {
            LogVal::Fin { neg: ng, mag: m }
        }
    }
}

/// Division of a scaled product, rounded to nearest away from zero.
pub open spec fn spec_round_div(x: int, d: int) -> int {
    if x >= 0 { (x + d / 2) / d } else { -((-x + d / 2) / d) }
}

/// A real power of a negative base is undefined unless the fixed-point
/// exponent is a whole number.
pub open spec fn spec_pow_err(a: LogVal, t: int) -> bool {
    (a is Fin || a is Inf) && val_neg(a) && t % (SCALE as int) != 0
}

/// Real power with a fixed-point exponent `t / SCALE`: scale the magnitude,
/// with sign by parity for whole exponents of negative bases. A zeroth
/// power of zero or infinity is not a number, as with integer powers.
pub open spec fn spec_pow_scaled(a: LogVal, t: int) -> LogVal {
    if a is Nan {
        LogVal::Nan
    } else if t == 0 {
        if a is Fin { LogVal::Fin { neg: false, mag: 0 } } else { LogVal::Nan }
    } else if a is Zero {
        if t > 0 { LogVal::Zero } else { LogVal::Inf { neg: false } }
    } else if a is Inf {
        if t > 0 {
            LogVal::Inf { neg: val_neg(a) && (t / (SCALE as int)) % 2 != 0 }
        } else {
            LogVal::Zero
        }
    } else {
        let m = spec_round_div(val_mag(a) * t, SCALE as int);
        let ng = val_neg(a) && (t / (SCALE as int)) % 2 != 0;
        if m > MAG_MAX {
            LogVal::Inf { neg: ng }
        } else if m < -MAG_MAX {
            LogVal::Zero
        } else {
            LogVal::Fin { neg: ng, mag: m }
        }
    }
}

/// The log magnitude of a positive machine integer.
pub open spec fn spec_from_int(n: int) -> LogVal {
    if n == 0 {
        LogVal::Zero
    } else if n > 0 {
        LogVal::Fin { neg: false, mag: spec_log_of_int(n) }
    } else {
        LogVal::Fin { neg: true, mag: spec_log_of_int(-n) }
    }
}

/// The value `v / SCALE` as a log number: a fixed-point scalar lifted into
/// log space.
pub open spec fn spec_from_scaled(v: int) -> LogVal {
    if v == 0 {
        LogVal::Zero
    } else if v > 0 {
        LogVal::Fin { neg: false, mag: spec_log_of_int(v) - 9 * (SCALE as int) }
    } else {
        LogVal::Fin { neg: true, mag: spec_log_of_int(-v) - 9 * (SCALE as int) }
    }
}

/// The value of a log number as a fixed-point scalar, rounded to nearest
/// and saturated at `SCALED_SAT`; zero for not-a-number.
pub open spec fn spec_to_scaled(a: LogVal) -> int {
    match a {
        LogVal::Zero => 0,
        LogVal::Nan => 0,
        LogVal::Inf { neg } => if neg { -(SCALED_SAT as int) } else { SCALED_SAT as int },
        LogVal::Fin { neg, mag } => {
            let w = mag + 9 * (SCALE as int);
            let v = if w <= 0 {
                let ww = if w < -20 * SCALE { -20 * (SCALE as int) } else { w };
                if spec_pow10_neg(ww) >= HALF_SCALE { 1int } else { 0int }
            } else {
                let q = w / (SCALE as int);
                if q >= 19 {
                    SCALED_SAT as int
                } else {
                    let p = spec_pow10(w % (SCALE as int));
                    let u = ((ten_pow(q as u32) as int) * p + HALF_SCALE) / (SCALE as int);
                    if u > SCALED_SAT { SCALED_SAT as int } else { u }
                }
            };
            if neg { -v } else { v }
        },
    }
}

/// Comparison: positive beats negative; equal positive signs compare the
/// magnitude, equal negative signs compare it in reverse. Zero counts as
/// positive and sits below every positive magnitude; not-a-number is
/// incomparable.
pub open spec fn spec_cmp(a: LogVal, b: LogVal) -> Option<Ordering> {
    if a is Nan || b is Nan {
        Option::None
    } else if !val_neg(a) && !val_neg(b) {
        Option::Some(spec_mag_cmp(a, b))
    } else if !val_neg(a) && val_neg(b) {
        Option::Some(Ordering::Greater)
    } else if val_neg(a) && !val_neg(b) {
        Option::Some(Ordering::Less)
    } else {
        Option::Some(spec_mag_cmp(b, a))
    }
}

/// Order of absolute magnitudes: zero below every finite magnitude below
/// infinity.
pub open spec fn spec_mag_cmp(a: LogVal, b: LogVal) -> Ordering {
    let ra = spec_mag_rank(a);
    let rb = spec_mag_rank(b);
    if ra < rb {
        Ordering::Less
    } else if ra > rb {
        Ordering::Greater
    } else if a is Fin && b is Fin {
        if val_mag(a) < val_mag(b) {
            Ordering::Less
        } else if val_mag(a) > val_mag(b) {
            Ordering::Greater
        } else {
            Ordering::Equal
        }
    } else {
        Ordering::Equal
    }
}

/// Coarse magnitude class: zero, finite, infinite.
pub open spec fn spec_mag_rank(a: LogVal) -> int {
    match a {
        LogVal::Zero => 0,
        LogVal::Fin { neg, mag } => 1,
        LogVal::Inf { neg } => 2,
        LogVal::Nan => 3,
    }
}

/// Strictly less, under the comparison order.
pub open spec fn spec_lt(a: LogVal, b: LogVal) -> bool {
    spec_cmp(a, b) == Option::Some(Ordering::Less)
}

/// Less or equal, under the comparison order.
pub open spec fn spec_le(a: LogVal, b: LogVal) -> bool {
    spec_cmp(a, b) == Option::Some(Ordering::Less) || spec_cmp(a, b) == Option::Some(
        Ordering::Equal,
    )
}

/// Strictly greater, under the comparison order.
pub open spec fn spec_gt(a: LogVal, b: LogVal) -> bool {
    spec_cmp(a, b) == Option::Some(Ordering::Greater)
}

/// Greater or equal, under the comparison order.
pub open spec fn spec_ge(a: LogVal, b: LogVal) -> bool {
    spec_cmp(a, b) == Option::Some(Ordering::Greater) || spec_cmp(a, b) == Option::Some(
        Ordering::Equal,
    )
}

impl LogNum {
    /// The canonical zero: magnitude minus infinity, positive sign.
    pub fn zero() -> (r: LogNum)
        ensures
            r@ == LogVal::Zero,
    {
        LogNum { sign: 1, mag: MagRep::NegInf }
    }

    /// One: magnitude zero, positive sign.
    pub fn one() -> (r: LogNum)
        ensures
            r@ == (LogVal::Fin { neg: false, mag: 0 }),
    {
        LogNum { sign: 1, mag: MagRep::Fin(0) }
    }

    /// Positive infinity.
    pub fn infinity() -> (r: LogNum)
        ensures
            r@ == (LogVal::Inf { neg: false }),
    {
        LogNum { sign: 1, mag: MagRep::PosInf }
    }

    /// Negative infinity.
    pub fn neg_infinity() -> (r: LogNum)
        ensures
            r@ == (LogVal::Inf { neg: true }),
    {
        LogNum { sign: -1, mag: MagRep::PosInf }
    }

    /// Not-a-number.
    pub fn nan() -> (r: LogNum)
        ensures
            r@ == LogVal::Nan,
    {
        LogNum { sign: 1, mag: MagRep::Nan }
    }

    /// A machine integer, converted through the fixed-point logarithm.
    pub fn from_int(n: i64) -> (r: LogNum)
        requires
            n > i64::MIN,
        ensures
            r@ == spec_from_int(n as int),
            wf_val(r@),
    {
        if n == 0 {
            LogNum::zero()
        } else if n > 0 {
            let m = log_of_int(n);
            LogNum { sign: 1, mag: MagRep::Fin(m) }
        } else {
            let m = log_of_int(-n);
            LogNum { sign: -1, mag: MagRep::Fin(m) }
        }
    }

    /// The scalar `v / SCALE`, converted through the fixed-point logarithm.
    pub fn from_scaled(v: i64) -> (r: LogNum)
        requires
            v > i64::MIN,
        ensures
            r@ == spec_from_scaled(v as int),
            wf_val(r@),
    {
        if v == 0 {
            LogNum::zero()
        } else if v > 0 {
            let m = log_of_int(v);
            LogNum { sign: 1, mag: MagRep::Fin(m - 9 * SCALE) }
        } else {
            let m = log_of_int(-v);
            LogNum { sign: -1, mag: MagRep::Fin(m - 9 * SCALE) }
        }
    }

    /// True of the canonical zero.
    pub fn is_zero(&self) -> (r: bool)
        ensures
            r == (self@ is Zero),
    {
        matches!(self.mag, MagRep::NegInf)
    }

    /// True of one.
    pub fn is_one(&self) -> (r: bool)
        ensures
            r == (self@ == (LogVal::Fin { neg: false, mag: 0 })),
    {
        proof {
            use_type_invariant(self);
        }
        match self.mag {
            MagRep::Fin(v) => v == 0 && self.sign == 1,
            _ => false,
        }
    }

    /// True of not-a-number.
    pub fn is_nan(&self) -> (r: bool)
        ensures
            r == (self@ is Nan),
    {
        matches!(self.mag, MagRep::Nan)
    }

    /// True of zero and of finite magnitudes.
    pub fn is_finite(&self) -> (r: bool)
        ensures
            r == (self@ is Zero || self@ is Fin),
    {
        matches!(self.mag, MagRep::NegInf | MagRep::Fin(_))
    }

    /// True of the two infinities.
    pub fn is_infinite(&self) -> (r: bool)
        ensures
            r == (self@ is Inf),
    {
        matches!(self.mag, MagRep::PosInf)
    }

    /// The magnitude class of this value.
    pub fn classify(&self) -> (r: FpClass)
        ensures
            r == (if self@ is Inf {
                FpClass::Infinite
            } else if self@ is Zero {
                FpClass::Zero
            } else if self@ is Nan {
                FpClass::Nan
            } else {
                FpClass::Normal
            }),
    {
        match self.mag {
            MagRep::PosInf => FpClass::Infinite,
            MagRep::NegInf => FpClass::Zero,
            MagRep::Nan => FpClass::Nan,
            MagRep::Fin(_) => FpClass::Normal,
        }
    }

    /// True when the sign is positive; zero and not-a-number count as
    /// positive.
    pub fn is_sign_positive(&self) -> (r: bool)
        ensures
            r == !val_neg(self@),
    {
        proof {
            use_type_invariant(self);
        }
        self.sign == 1
    }

    /// True when the sign is negative.
    pub fn is_sign_negative(&self) -> (r: bool)
        ensures
            r == val_neg(self@),
    {
        proof {
            use_type_invariant(self);
        }
        self.sign == -1
    }

    /// The raw fixed-point log magnitude of a finite nonzero value.
    pub fn magnitude_scaled(&self) -> (r: Option<i64>)
        ensures
            (self@ matches LogVal::Fin { neg, mag } ==> r == Option::Some(mag as i64)
                && -MAG_MAX <= mag <= MAG_MAX),
            !(self@ is Fin) ==> r is None,
    {
        proof {
            use_type_invariant(self);
        }
        match self.mag {
            MagRep::Fin(v) => Option::Some(v),
            _ => Option::None,
        }
    }

    /// Negation.
    pub fn neg(self) -> (r: LogNum)
        ensures
            r@ == spec_neg(self@),
    {
        proof {
            use_type_invariant(self);
        }
        match self.mag {
            MagRep::NegInf => self,
            MagRep::Nan => self,
            _ => LogNum { sign: -self.sign, mag: self.mag },
        }
    }

    /// Absolute value: keep the magnitude, force the positive sign.
    pub fn abs(self) -> (r: LogNum)
        ensures
            r@ == (match self@ {
                LogVal::Fin { neg, mag } => LogVal::Fin { neg: false, mag },
                LogVal::Inf { neg } => LogVal::Inf { neg: false },
                v => v,
            }),
    {
        proof {
            use_type_invariant(self);
        }
        LogNum { sign: 1, mag: self.mag }
    }

    /// Reciprocal: negate the magnitude, keep the sign.
    pub fn recip(self) -> (r: LogNum)
        ensures
            r@ == (match self@ {
                LogVal::Zero => LogVal::Inf { neg: false },
                LogVal::Fin { neg, mag } => LogVal::Fin { neg, mag: -mag },
                LogVal::Inf { neg } => LogVal::Zero,
                LogVal::Nan => LogVal::Nan,
            }),
    {
        proof {
            use_type_invariant(self);
        }
        match self.mag {
            MagRep::NegInf => LogNum { sign: self.sign, mag: MagRep::PosInf },
            MagRep::PosInf => LogNum { sign: 1, mag: MagRep::NegInf },
            MagRep::Nan => self,
            MagRep::Fin(v) => LogNum { sign: self.sign, mag: MagRep::Fin(-v) },
        }
    }

    /// Addition in log space.
    pub fn add(self, rhs: LogNum) -> (r: LogNum)
        ensures
            r@ == spec_add(self@, rhs@),
    {
        proof {
            use_type_invariant(self);
            use_type_invariant(rhs);
        }
        if matches!(self.mag, MagRep::Nan) || matches!(rhs.mag, MagRep::Nan) {
            return LogNum::nan();
        }
        if matches!(self.mag, MagRep::NegInf) {
            return rhs;
        }
        if matches!(rhs.mag, MagRep::NegInf) {
            return self;
        }
        if matches!(self.mag, MagRep::PosInf) {
            return self;
        }
        if matches!(rhs.mag, MagRep::PosInf) {
            return rhs;
        }
        let (a, b) = match (self.mag, rhs.mag) {
            (MagRep::Fin(a), MagRep::Fin(b)) => (a, b),
            _ => (0i64, 0i64),
        };
        let (hs, hm, ls_, lm) = if b <= a {
            (self.sign, a, rhs.sign, b)
        } else {
            (rhs.sign, b, self.sign, a)
        };
        let d128 = (lm as i128) - (hm as i128);
        let dd: i64 = if d128 < ((-20 * SCALE) as i128) {
            -20 * SCALE
        } else {
            d128 as i64
        };
        if hs == ls_ {
            let k = log_lift(dd);
            let m128 = (hm as i128) + (k as i128);
            if m128 > (MAG_MAX as i128) {
                LogNum { sign: hs, mag: MagRep::PosInf }
            } else {
                LogNum { sign: hs, mag: MagRep::Fin(m128 as i64) }
            }
        } else {
            match log_drop(dd) {
                Option::None => LogNum::zero(),
                Option::Some(v) => {
                    let m128 = (hm as i128) + (v as i128);
                    if m128 < ((-MAG_MAX) as i128) {
                        LogNum::zero()
                    } else if m128 > (MAG_MAX as i128) {
                        LogNum { sign: hs, mag: MagRep::PosInf }
                    } else {
                        LogNum { sign: hs, mag: MagRep::Fin(m128 as i64) }
                    }
                },
            }
        }
    }

    /// Subtraction: addition of the negation.
    pub fn sub(self, rhs: LogNum) -> (r: LogNum)
        ensures
            r@ == spec_sub(self@, rhs@),
    {
        self.add(rhs.neg())
    }

    /// Multiplication in log space.
    pub fn mul(self, rhs: LogNum) -> (r: LogNum)
        ensures
            r@ == spec_mul(self@, rhs@),
    {
        proof {
            use_type_invariant(self);
            use_type_invariant(rhs);
        }
        let ns: i8 = if self.sign == rhs.sign { 1 } else { -1 };
        match (self.mag, rhs.mag) {
            (MagRep::Nan, _) | (_, MagRep::Nan) => LogNum::nan(),
            (MagRep::NegInf, MagRep::PosInf) | (MagRep::PosInf, MagRep::NegInf) => LogNum::nan(),
            (MagRep::NegInf, _) | (_, MagRep::NegInf) => LogNum::zero(),
            (MagRep::PosInf, _) | (_, MagRep::PosInf) => LogNum { sign: ns, mag: MagRep::PosInf },
            (MagRep::Fin(a), MagRep::Fin(b)) => {
                let m128 = (a as i128) + (b as i128);
                if m128 > (MAG_MAX as i128) {
                    LogNum { sign: ns, mag: MagRep::PosInf }
                } else if m128 < ((-MAG_MAX) as i128) {
                    LogNum::zero()
                } else {
                    LogNum { sign: ns, mag: MagRep::Fin(m128 as i64) }
                }
            },
        }
    }

    /// Division in log space.
    pub fn div(self, rhs: LogNum) -> (r: LogNum)
        ensures
            r@ == spec_div(self@, rhs@),
    {
        proof {
            use_type_invariant(self);
            use_type_invariant(rhs);
        }
        let ns: i8 = if self.sign == rhs.sign { 1 } else { -1 };
        match (self.mag, rhs.mag) {
            (MagRep::Nan, _) | (_, MagRep::Nan) => LogNum::nan(),
            (MagRep::NegInf, MagRep::NegInf) => LogNum::nan(),
            (MagRep::NegInf, _) => LogNum::zero(),
            (MagRep::PosInf, MagRep::PosInf) => LogNum::nan(),
            (MagRep::PosInf, _) => LogNum { sign: ns, mag: MagRep::PosInf },
            (MagRep::Fin(_), MagRep::NegInf) => LogNum { sign: self.sign, mag: MagRep::PosInf },
            (MagRep::Fin(_), MagRep::PosInf) => LogNum::zero(),
            (MagRep::Fin(a), MagRep::Fin(b)) => {
                let m128 = (a as i128) - (b as i128);
                if m128 > (MAG_MAX as i128) {
                    LogNum { sign: ns, mag: MagRep::PosInf }
                } else if m128 < ((-MAG_MAX) as i128) {
                    LogNum::zero()
                } else {
                    LogNum { sign: ns, mag: MagRep::Fin(m128 as i64) }
                }
            },
        }
    }

    /// Integer power.
    pub fn powi(self, n: i32) -> (r: LogNum)
        requires
            n > i32::MIN,
        ensures
            r@ == spec_powi(self@, n as int),
    {
        proof {
            use_type_invariant(self);
        }
        let odd = n % 2 != 0;
        let ns: i8 = if self.sign == -1 && odd { -1 } else { 1 };
        match self.mag {
            MagRep::Nan => LogNum::nan(),
            MagRep::NegInf => {
                if n == 0 {
                    LogNum::nan()
                } else if n > 0 {
                    LogNum::zero()
                } else {
                    LogNum::infinity()
                }
            },
            MagRep::PosInf => {
                if n == 0 {
                    LogNum::nan()
                } else if n > 0 {
                    LogNum { sign: ns, mag: MagRep::PosInf }
                } else {
                    LogNum::zero()
                }
            },
            MagRep::Fin(v) => {
                if n == 0 {
                    LogNum::one()
                } else {
                    proof {
                        assert((v as int) * (n as int) <= (MAG_MAX as int) * 0x8000_0000
                            && (v as int) * (n as int) >= -((MAG_MAX as int) * 0x8000_0000))
                            by (nonlinear_arith)
                            requires -MAG_MAX <= v <= MAG_MAX, -0x8000_0000 <= n <= 0x8000_0000;
                    }
                    let m128 = (v as i128) * (n as i128);
                    if m128 > (MAG_MAX as i128) {
                        LogNum { sign: ns, mag: MagRep::PosInf }
                    } else if m128 < ((-MAG_MAX) as i128) {
                        LogNum::zero()
                    } else {
                        LogNum { sign: ns, mag: MagRep::Fin(m128 as i64) }
                    }
                }
            },
        }
    }
}

/// Failure of an operation whose result is mathematically undefined, such
/// as a fractional power of a negative base.
#[derive(Clone, Copy, Debug, PartialEq, Eq, Structural)]
pub struct DomainError;

impl LogNum {
    /// Real power with a fixed-point exponent `t / SCALE`. A fractional
    /// power of a negative base is a domain error, never a silent value.
    pub fn pow_scaled(self, t: i64) -> (r: Result<LogNum, DomainError>)
        requires
            t > i64::MIN,
        ensures
            (r is Err) == spec_pow_err(self@, t as int),
            (r matches Ok(v) ==> v@ == spec_pow_scaled(self@, t as int)),
    {
        proof {
            use_type_invariant(self);
        }
        let rem = if t >= 0 { t % SCALE } else { (-t) % SCALE };
        if self.sign == -1 && !matches!(self.mag, MagRep::NegInf | MagRep::Nan) && rem != 0 {
            proof {
                lemma_mod_abs(t as int, SCALE as int);
            }
            return Result::Err(DomainError);
        }
        let qa = if t >= 0 { t / SCALE } else { (-t) / SCALE };
        let odd = qa % 2 != 0;
        let ns: i8 = if self.sign == -1 && odd { -1 } else { 1 };
        proof {
            lemma_mod_abs(t as int, SCALE as int);
            if t < 0 && (-t) % (SCALE as int) == 0 {
                lemma_exact_neg_div(t as int, SCALE as int);
                lemma_neg_parity(((-t) as int) / (SCALE as int));
            }
        }
        match self.mag {
            MagRep::Nan => Result::Ok(LogNum::nan()),
            MagRep::NegInf => {
                if t == 0 {
                    Result::Ok(LogNum::nan())
                } else if t > 0 {
                    Result::Ok(LogNum::zero())
                } else {
                    Result::Ok(LogNum::infinity())
                }
            },
            MagRep::PosInf => {
                if t == 0 {
                    Result::Ok(LogNum::nan())
                } else if t > 0 {
                    Result::Ok(LogNum { sign: ns, mag: MagRep::PosInf })
                } else {
                    Result::Ok(LogNum::zero())
                }
            },
            MagRep::Fin(v) => {
                if t == 0 {
                    Result::Ok(LogNum::one())
                } else {
                    proof {
                        assert((v as int) * (t as int) <= (MAG_MAX as int) * 9223372036854775808int
                            && (v as int) * (t as int) >= -(
                            (MAG_MAX as int) * 9223372036854775808int))
                            by (nonlinear_arith)
                            requires -MAG_MAX <= v <= MAG_MAX,
                                -9223372036854775808i128 <= t <= 9223372036854775807i128;
                    }
                    let x = (v as i128) * (t as i128);
                    let m128 = if x >= 0 {
                        (x + (HALF_SCALE as i128)) / (SCALE as i128)
                    } else {
                        -((-x + (HALF_SCALE as i128)) / (SCALE as i128))
                    };
                    proof {
                        vstd::arithmetic::div_mod::lemma_div_is_ordered(
                            0,
                            (if x >= 0 { x as int } else { -(x as int) }) + HALF_SCALE,
                            SCALE as int,
                        );
                    }
                    if m128 > (MAG_MAX as i128) {
                        Result::Ok(LogNum { sign: ns, mag: MagRep::PosInf })
                    } else if m128 < ((-MAG_MAX) as i128) {
                        Result::Ok(LogNum::zero())
                    } else {
                        Result::Ok(LogNum { sign: ns, mag: MagRep::Fin(m128 as i64) })
                    }
                }
            },
        }
    }

    /// The value of this number as a fixed-point scalar, rounded to
    /// nearest and saturated at `SCALED_SAT`.
    pub fn to_scaled(self) -> (r: i64)
        ensures
            r == spec_to_scaled(self@),
            -SCALED_SAT <= r <= SCALED_SAT,
    {
        proof {
            use_type_invariant(self);
        }
        match self.mag {
            MagRep::NegInf => 0,
            MagRep::Nan => 0,
            MagRep::PosInf => if self.sign == -1 { -SCALED_SAT } else { SCALED_SAT },
            MagRep::Fin(mag) => {
                let w128 = (mag as i128) + ((9 * SCALE) as i128);
                let v: i64 = if w128 <= 0 {
                    let ww: i64 = if w128 < ((-20 * SCALE) as i128) {
                        -20 * SCALE
                    } else {
                        w128 as i64
                    };
                    if pow10_neg(ww) >= HALF_SCALE { 1 } else { 0 }
                } else {
                    let w = w128 as i64;
                    let q = w / SCALE;
                    if q >= 19 {
                        SCALED_SAT
                    } else {
                        let p = pow10_frac(w % SCALE);
                        proof {
                            assert(0 <= (ten_pow(q as u32) as int) * (p as int)
                                <= 1000000000000000000int * (TEN_SCALE as int))
                                by (nonlinear_arith)
                                requires 1 <= ten_pow(q as u32) <= 1000000000000000000i64,
                                    0 <= p <= TEN_SCALE;
                        }
                        let u128 = ((ten_pow(q as u32) as i128) * (p as i128)
                            + (HALF_SCALE as i128)) / (SCALE as i128);
                        proof {
                            vstd::arithmetic::div_mod::lemma_div_is_ordered(
                                0,
                                (ten_pow(q as u32) as int) * (spec_pow10((w % SCALE) as int))
                                    + HALF_SCALE,
                                SCALE as int,
                            );
                        }
                        if u128 > (SCALED_SAT as i128) { SCALED_SAT } else { u128 as i64 }
                    }
                };
                if self.sign == -1 { -v } else { v }
            },
        }
    }

    /// Real power with a log-number exponent: the exponent is flattened to
    /// a fixed-point scalar first.
    pub fn pow(self, rhs: LogNum) -> (r: Result<LogNum, DomainError>)
        ensures
            (r is Err) == spec_pow_err(self@, spec_to_scaled(rhs@)),
            (r matches Ok(v) ==> v@ == spec_pow_scaled(self@, spec_to_scaled(rhs@))),
    {
        let t = rhs.to_scaled();
        self.pow_scaled(t)
    }

    /// Square root: the power one half. Negative values are a domain error.
    pub fn sqrt(self) -> (r: Result<LogNum, DomainError>)
        ensures
            (r is Err) == spec_pow_err(self@, HALF_SCALE as int),
            (r matches Ok(v) ==> v@ == spec_pow_scaled(self@, HALF_SCALE as int)),
    {
        self.pow_scaled(HALF_SCALE)
    }

    /// Base-10 logarithm of the magnitude: the sign of the operand is
    /// ignored, matching a log-magnitude read-out.
    pub fn log10(self) -> (r: LogNum)
        ensures
            r@ == spec_log10_val(self@),
    {
        proof {
            use_type_invariant(self);
        }
        match self.mag {
            MagRep::NegInf => LogNum::neg_infinity(),
            MagRep::PosInf => {
                if self.sign == -1 {
                    LogNum::neg_infinity()
                } else {
                    LogNum::infinity()
                }
            },
            MagRep::Nan => LogNum::nan(),
            MagRep::Fin(v) => LogNum::from_scaled(v),
        }
    }

    /// Natural logarithm, as the base-10 logarithm scaled by `ln 10`.
    pub fn ln(self) -> (r: LogNum)
        ensures
            r@ == spec_mul(spec_log10_val(self@), spec_from_scaled(LN10_SCALED as int)),
    {
        self.log10().mul(LogNum::from_scaled(LN10_SCALED))
    }

    /// Base-2 logarithm, as the base-10 logarithm scaled by `log2 10`.
    pub fn log2(self) -> (r: LogNum)
        ensures
            r@ == spec_mul(spec_log10_val(self@), spec_from_scaled(LOG2_10_SCALED as int)),
    {
        self.log10().mul(LogNum::from_scaled(LOG2_10_SCALED))
    }

    /// Ten to this power: the new magnitude is this value flattened to a
    /// fixed-point scalar.
    pub fn exp10(self) -> (r: LogNum)
        ensures
            r@ == spec_exp10(self@),
    {
        proof {
            use_type_invariant(self);
        }
        match self.mag {
            MagRep::Nan => LogNum::nan(),
            MagRep::PosInf => {
                if self.sign == -1 {
                    LogNum::zero()
                } else {
                    LogNum::infinity()
                }
            },
            _ => {
                let m = self.to_scaled();
                proof {
                    lemma_to_scaled_in_range(self@);
                }
                LogNum { sign: 1, mag: MagRep::Fin(m) }
            },
        }
    }

    /// Exponential: `e^x = 10^(x * log10 e)`.
    pub fn exp(self) -> (r: LogNum)
        ensures
            r@ == spec_exp10(spec_mul(self@, spec_from_scaled(LOG10_E_SCALED as int))),
    {
        self.mul(LogNum::from_scaled(LOG10_E_SCALED)).exp10()
    }

    /// Base-2 exponential: `2^x = 10^(x * log10 2)`.
    pub fn exp2(self) -> (r: LogNum)
        ensures
            r@ == spec_exp10(spec_mul(self@, spec_from_scaled(LOG10_2_SCALED as int))),
    {
        self.mul(LogNum::from_scaled(LOG10_2_SCALED)).exp10()
    }
}

/// `ln 10` in fixed point.
pub const LN10_SCALED: i64 = 2_302_585_093;

/// `log2 10` in fixed point.
pub const LOG2_10_SCALED: i64 = 3_321_928_095;

/// `log10 e` in fixed point.
pub const LOG10_E_SCALED: i64 = 434_294_482;

/// `log10 2` in fixed point.
pub const LOG10_2_SCALED: i64 = 301_029_996;

/// Base-10 logarithm on values: minus infinity at zero, the sign ignored
/// elsewhere.
pub open spec fn spec_log10_val(a: LogVal) -> LogVal {
    match a {
        LogVal::Zero => LogVal::Inf { neg: true },
        LogVal::Fin { neg, mag } => spec_from_scaled(mag),
        LogVal::Inf { neg } => LogVal::Inf { neg },
        LogVal::Nan => LogVal::Nan,
    }
}

/// Ten to a log-number power on values.
pub open spec fn spec_exp10(a: LogVal) -> LogVal {
    match a {
        LogVal::Nan => LogVal::Nan,
        LogVal::Inf { neg } => if neg { LogVal::Zero } else { LogVal::Inf { neg: false } },
        _ => LogVal::Fin { neg: false, mag: spec_to_scaled(a) },
    }
}

/// The magnitude class of a bare magnitude representation, with a positive
/// sign assumed.
pub open spec fn mag_view(m: MagRep) -> LogVal {
    match m {
        MagRep::NegInf => LogVal::Zero,
        MagRep::Fin(v) => LogVal::Fin { neg: false, mag: v as int },
        MagRep::PosInf => LogVal::Inf { neg: false },
        MagRep::Nan => LogVal::Nan,
    }
}

/// Compares two magnitude representations as absolute magnitudes.
fn mag_cmp_rep(a: MagRep, b: MagRep) -> (r: Ordering)
    requires
        !(mag_view(a) is Nan),
        !(mag_view(b) is Nan),
    ensures
        r == spec_mag_cmp(mag_view(a), mag_view(b)),
{
    match (a, b) {
        (MagRep::NegInf, MagRep::NegInf) => Ordering::Equal,
        (MagRep::NegInf, _) => Ordering::Less,
        (_, MagRep::NegInf) => Ordering::Greater,
        (MagRep::PosInf, MagRep::PosInf) => Ordering::Equal,
        (MagRep::PosInf, _) => Ordering::Greater,
        (_, MagRep::PosInf) => Ordering::Less,
        (MagRep::Fin(x), MagRep::Fin(y)) => {
            if x < y {
                Ordering::Less
            } else if x > y {
                Ordering::Greater
            } else {
                Ordering::Equal
            }
        },
        _ => Ordering::Equal,
    }
}

impl LogNum {
    /// Three-way comparison; `None` when either operand is not-a-number.
    pub fn compare(&self, other: &LogNum) -> (r: Option<Ordering>)
        ensures
            r == spec_cmp(self@, other@),
    {
        proof {
            use_type_invariant(self);
            use_type_invariant(other);
        }
        if matches!(self.mag, MagRep::Nan) || matches!(other.mag, MagRep::Nan) {
            return Option::None;
        }
        let sp = self.sign == 1;
        let op = other.sign == 1;
        if sp && op {
            Option::Some(mag_cmp_rep(self.mag, other.mag))
        } else if sp && !op {
            Option::Some(Ordering::Greater)
        } else if !sp && op {
            Option::Some(Ordering::Less)
        } else {
            Option::Some(mag_cmp_rep(other.mag, self.mag))
        }
    }

    /// Strictly less.
    pub fn lt(&self, other: &LogNum) -> (r: bool)
        ensures
            r == spec_lt(self@, other@),
    {
        matches!(self.compare(other), Option::Some(Ordering::Less))
    }

    /// Less or equal.
    pub fn le(&self, other: &LogNum) -> (r: bool)
        ensures
            r == spec_le(self@, other@),
    {
        matches!(self.compare(other), Option::Some(Ordering::Less | Ordering::Equal))
    }

    /// Strictly greater.
    pub fn gt(&self, other: &LogNum) -> (r: bool)
        ensures
            r == spec_gt(self@, other@),
    {
        matches!(self.compare(other), Option::Some(Ordering::Greater))
    }

    /// Greater or equal.
    pub fn ge(&self, other: &LogNum) -> (r: bool)
        ensures
            r == spec_ge(self@, other@),
    {
        matches!(self.compare(other), Option::Some(Ordering::Greater | Ordering::Equal))
    }

    /// The smaller operand, preferring the left one at equality.
    pub fn min(self, other: LogNum) -> (r: LogNum)
        ensures
            r == spec_min_num(self, other),
    {
        if self.le(&other) {
            self
        } else {
            other
        }
    }

    /// The larger operand, preferring the left one at equality.
    pub fn max(self, other: LogNum) -> (r: LogNum)
        ensures
            r == spec_max_num(self, other),
    {
        if self.ge(&other) {
            self
        } else {
            other
        }
    }

    /// Clamp into `[lo, hi]`, raising to `lo` first and lowering to `hi`
    /// second.
    pub fn clamp(self, lo: LogNum, hi: LogNum) -> (r: LogNum)
        ensures
            r == spec_min_num(spec_max_num(self, lo), hi),
    {
        self.max(lo).min(hi)
    }

    /// The sign as a number: one, minus one, or not-a-number; zero counts
    /// as positive.
    pub fn signum(self) -> (r: LogNum)
        ensures
            r@ == (if self@ is Nan {
                LogVal::Nan
            } else {
                LogVal::Fin { neg: val_neg(self@), mag: 0 }
            }),
    {
        proof {
            use_type_invariant(self);
        }
        match self.mag {
            MagRep::Nan => LogNum::nan(),
            _ => LogNum { sign: self.sign, mag: MagRep::Fin(0) },
        }
    }

    /// This magnitude under the sign of the other operand; zero and
    /// not-a-number stay canonical.
    pub fn copysign(self, other: LogNum) -> (r: LogNum)
        ensures
            r@ == (match self@ {
                LogVal::Fin { neg, mag } => LogVal::Fin { neg: val_neg(other@), mag },
                LogVal::Inf { neg } => LogVal::Inf { neg: val_neg(other@) },
                v => v,
            }),
    {
        proof {
            use_type_invariant(self);
            use_type_invariant(other);
        }
        match self.mag {
            MagRep::NegInf => self,
            MagRep::Nan => self,
            _ => LogNum { sign: if other.sign == -1 && !matches!(other.mag, MagRep::NegInf | MagRep::Nan) { -1 } else { 1 }, mag: self.mag },
        }
    }
}

/// Truncation of a positive magnitude to an integer: `10^(mag / SCALE)`
/// rounded toward zero, with the approximate mantissa the kernel holds.
pub open spec fn spec_trunc_mag(mag: int) -> int {
    let q = mag / (SCALE as int);
    let p = spec_pow10(mag % (SCALE as int));
    if q <= 18 {
        ((ten_pow(q as u32) as int) * p) / (SCALE as int)
    } else {
        ((ten_pow(18u32) as int) * p * 10) / (SCALE as int)
    }
}

/// Truncation to a signed machine integer; out-of-range values give `None`.
pub open spec fn spec_to_i64(a: LogVal) -> Option<int> {
    match a {
        LogVal::Zero => Option::Some(0int),
        LogVal::Nan => Option::None,
        LogVal::Inf { neg } => Option::None,
        LogVal::Fin { neg, mag } => {
            if mag < 0 {
                Option::Some(0int)
            } else if mag / (SCALE as int) >= 19 {
                Option::None
            } else {
                let v = spec_trunc_mag(mag);
                if v > i64::MAX {
                    Option::None
                } else if neg {
                    Option::Some(-v)
                } else {
                    Option::Some(v)
                }
            }
        },
    }
}

/// Truncation to an unsigned machine integer; negative and out-of-range
/// values give `None`.
pub open spec fn spec_to_u64(a: LogVal) -> Option<int> {
    match a {
        LogVal::Zero => Option::Some(0int),
        LogVal::Nan => Option::None,
        LogVal::Inf { neg } => Option::None,
        LogVal::Fin { neg, mag } => {
            if neg {
                Option::None
            } else if mag < 0 {
                Option::Some(0int)
            } else if mag / (SCALE as int) >= 20 {
                Option::None
            } else {
                let v = spec_trunc_mag(mag);
                if v > u64::MAX {
                    Option::None
                } else {
                    Option::Some(v)
                }
            }
        },
    }
}

impl LogNum {
    /// The truncated integer magnitude of a non-negative finite value whose
    /// decade exponent `q` is at most nineteen.
    fn trunc_mag(mag: i64) -> (r: i128)
        requires
            0 <= mag,
            mag / SCALE <= 19,
        ensures
            r == spec_trunc_mag(mag as int),
            0 <= r,
    {
        let q = mag / SCALE;
        let p = pow10_frac(mag % SCALE);
        if q <= 18 {
            let h = ten_pow(q as u32);
            proof {
                assert(0 <= (h as int) * (p as int) <= 1000000000000000000int * (TEN_SCALE as int))
                    by (nonlinear_arith)
                    requires 1 <= h <= 1000000000000000000i64, 0 <= p <= TEN_SCALE;
                vstd::arithmetic::div_mod::lemma_div_is_ordered(
                    0,
                    (h as int) * (p as int),
                    SCALE as int,
                );
            }
            ((h as i128) * (p as i128)) / (SCALE as i128)
        } else {
            let h = ten_pow(18);
            proof {
                assert(0 <= (h as int) * (p as int) * 10 <= 1000000000000000000int * (
                TEN_SCALE as int) * 10) by (nonlinear_arith)
                    requires 1 <= h <= 1000000000000000000i64, 0 <= p <= TEN_SCALE;
                vstd::arithmetic::div_mod::lemma_div_is_ordered(
                    0,
                    (h as int) * (p as int) * 10,
                    SCALE as int,
                );
            }
            ((h as i128) * (p as i128) * 10) / (SCALE as i128)
        }
    }

    /// Truncation toward zero to a signed machine integer.
    pub fn to_i64(self) -> (r: Option<i64>)
        ensures
            (r matches Some(v) && spec_to_i64(self@) == Some(v as int))
                || (r is None && spec_to_i64(self@) is None),
    {
        proof {
            use_type_invariant(self);
        }
        match self.mag {
            MagRep::NegInf => Option::Some(0),
            MagRep::Nan => Option::None,
            MagRep::PosInf => Option::None,
            MagRep::Fin(mag) => {
                if mag < 0 {
                    Option::Some(0)
                } else if mag / SCALE >= 19 {
                    Option::None
                } else {
                    let v = LogNum::trunc_mag(mag);
                    if v > (i64::MAX as i128) {
                        Option::None
                    } else if self.sign == -1 {
                        Option::Some(-(v as i64))
                    } else {
                        Option::Some(v as i64)
                    }
                }
            },
        }
    }

    /// Truncation toward zero to an unsigned machine integer; negative
    /// values are out of range.
    pub fn to_u64(self) -> (r: Option<u64>)
        ensures
            (r matches Some(v) && spec_to_u64(self@) == Some(v as int))
                || (r is None && spec_to_u64(self@) is None),
    {
        proof {
            use_type_invariant(self);
        }
        match self.mag {
            MagRep::NegInf => Option::Some(0),
            MagRep::Nan => Option::None,
            MagRep::PosInf => Option::None,
            MagRep::Fin(mag) => {
                if self.sign == -1 {
                    Option::None
                } else if mag < 0 {
                    Option::Some(0)
                } else if mag / SCALE >= 20 {
                    Option::None
                } else {
                    let v = LogNum::trunc_mag(mag);
                    if v > (u64::MAX as i128) {
                        Option::None
                    } else {
                        Option::Some(v as u64)
                    }
                }
            },
        }
    }
}

impl LogNum {
    /// A finite value from its stored parts: the sign flag and the
    /// fixed-point log magnitude. The inverse of `magnitude_scaled` and
    /// `is_sign_negative`, for callers that marshal values in and out.
    pub fn from_magnitude_scaled(neg: bool, mag: i64) -> (r: LogNum)
        requires
            -MAG_MAX <= mag <= MAG_MAX,
        ensures
            r@ == (LogVal::Fin { neg, mag: mag as int }),
    {
        LogNum { sign: if neg { -1 } else { 1 }, mag: MagRep::Fin(mag) }
    }

    /// Crate-internal constructor of a finite value from its parts.
    pub(crate) fn from_mag_parts(neg: bool, mag: i64) -> (r: LogNum)
        requires
            -MAG_MAX <= mag <= MAG_MAX,
        ensures
            r@ == (LogVal::Fin { neg, mag: mag as int }),
    {
        LogNum { sign: if neg { -1 } else { 1 }, mag: MagRep::Fin(mag) }
    }
}

/// The smaller of two log numbers, preferring the left at equality.
pub open spec fn spec_min_num(a: LogNum, b: LogNum) -> LogNum {
    if spec_le(a@, b@) {
        a
    } else {
        b
    }
}

/// The larger of two log numbers, preferring the left at equality.
pub open spec fn spec_max_num(a: LogNum, b: LogNum) -> LogNum {
    if spec_ge(a@, b@) {
        a
    } else {
        b
    }
}

impl PartialOrd for LogNum {
    fn partial_cmp(&self, other: &Self) -> (r: Option<Ordering>) {
        self.compare(other)
    }
}

impl vstd::std_specs::cmp::PartialOrdSpecImpl for LogNum {
    open spec fn obeys_partial_cmp_spec() -> bool {
        true
    }

    open spec fn partial_cmp_spec(&self, other: &Self) -> Option<Ordering> {
        spec_cmp(self@, other@)
    }
}

/// Negating a value preserves divisibility by a positive modulus.
proof fn lemma_mod_abs(t: int, d: int)
    requires
        d > 0,
    ensures
        ((-t) % d == 0) == (t % d == 0),
{
    vstd::arithmetic::div_mod::lemma_fundamental_div_mod(t, d);
    vstd::arithmetic::div_mod::lemma_fundamental_div_mod(-t, d);
    let q = t / d;
    let r = t % d;
    vstd::arithmetic::div_mod::lemma_mod_bound(t, d);
    vstd::arithmetic::div_mod::lemma_mod_bound(-t, d);
    if r == 0 {
        vstd::arithmetic::div_mod::lemma_mod_multiples_basic(-q, d);
        assert(-t == d * (-q)) by (nonlinear_arith)
            requires t == d * q;
    } else {
        if (-t) % d == 0 {
            let p = (-t) / d;
            assert(t == d * (-p)) by (nonlinear_arith)
                requires -t == d * p;
            vstd::arithmetic::div_mod::lemma_mod_multiples_basic(-p, d);
        }
    }
}

/// For an exact multiple, dividing the negation divides the value.
proof fn lemma_exact_neg_div(t: int, d: int)
    requires
        d > 0,
        t < 0,
        (-t) % d == 0,
    ensures
        t / d == -((-t) / d),
{
    let k = (-t) / d;
    vstd::arithmetic::div_mod::lemma_fundamental_div_mod(-t, d);
    assert(t == d * (-k)) by (nonlinear_arith)
        requires -t == d * k;
    vstd::arithmetic::div_mod::lemma_div_multiples_vanish(-k, d);
}

/// A value and its negation have the same parity.
proof fn lemma_neg_parity(k: int)
    ensures
        ((-k) % 2 != 0) == (k % 2 != 0),
{
    lemma_mod_abs(k, 2);
}

/// The flattened scalar of a zero or finite value stays inside the
/// saturation band, hence inside the magnitude band.
proof fn lemma_to_scaled_in_range(a: LogVal)
    ensures
        -SCALED_SAT <= spec_to_scaled(a) <= SCALED_SAT,
{
    match a {
        LogVal::Fin { neg, mag } => {
            let w = mag + 9 * (SCALE as int);
            if w <= 0 {
            } else {
                let q = w / (SCALE as int);
                if q >= 19 {
                } else {
                    let p = spec_pow10(w % (SCALE as int));
                    crate::fixedlog::lemma_pow10_range(w % (SCALE as int));
                    assert((ten_pow(q as u32) as int) * p >= 0) by (nonlinear_arith)
                        requires ten_pow(q as u32) >= 1, p >= 0;
                    vstd::arithmetic::div_mod::lemma_div_is_ordered(
                        0,
                        (ten_pow(q as u32) as int) * p + HALF_SCALE,
                        SCALE as int,
                    );
                }
            }
        },
        _ => {},
    }
}

} // verus!
