//! Resource-output curves over an integer level.
//!
//! A value curve answers the output accumulated from level zero, and an
//! incremental form that advances a previous output by one purchase at
//! the current level. The closed family is linear, exponential and
//! stepwise power sum; an opaque variant carries any outside
//! implementation of the same trait. The agreement of each incremental
//! form with its closed form is proved in `laws`.

use vstd::prelude::*;
use crate::lognum::{
    LogNum, LogVal, DomainError, spec_add, spec_sub, spec_mul, spec_div, spec_powi,
    spec_from_int,
};

verus! {

/// A resource-output curve.
pub trait ValueTrait {
    /// Internal consistency of the curve's parameters.
    spec fn inv(&self) -> bool;

    /// The output of a variable at `level`, counted from level zero.
    spec fn spec_from_zero(&self, level: int) -> LogVal;

    /// The output after one more purchase, advanced from a previous
    /// output at `level`.
    spec fn spec_next(&self, old_value: LogVal, level: int) -> LogVal;

    /// Evaluates the output from level zero.
    fn compute_from_zero(&self, level: i32) -> (r: LogNum)
        requires
            self.inv(),
            level >= 0,
        ensures
            r@ == self.spec_from_zero(level as int),
    ;

    /// Advances a previous output by one purchase.
    fn compute_next(&self, old_value: LogNum, current_level: i32) -> (r: LogNum)
        requires
            self.inv(),
            current_level >= 0,
        ensures
            r@ == self.spec_next(old_value@, current_level as int),
    ;
}

/// Output grows by a fixed slope per level above an offset.
#[derive(Clone, Copy, Debug)]
pub struct LinearValue {
    pub slope: LogNum,
    pub offset: LogNum,
}

impl LinearValue {
    /// A linear curve with the given slope and offset.
    pub fn new(power: LogNum, offset: LogNum) -> (r: LinearValue)
        ensures
            r.slope == power,
            r.offset == offset,
            r.inv(),
    {
        LinearValue { slope: power, offset }
    }
}

impl ValueTrait for LinearValue {
    open spec fn inv(&self) -> bool {
        true
    }

    open spec fn spec_from_zero(&self, level: int) -> LogVal {
        spec_add(self.offset@, spec_mul(spec_from_int(level), self.slope@))
    }

    open spec fn spec_next(&self, old_value: LogVal, level: int) -> LogVal {
        spec_add(old_value, self.slope@)
    }

    fn compute_from_zero(&self, level: i32) -> (r: LogNum) {
        self.offset.add(LogNum::from_int(level as i64).mul(self.slope))
    }

    fn compute_next(&self, old_value: LogNum, current_level: i32) -> (r: LogNum) {
        old_value.add(self.slope)
    }
}

/// Output is the base raised to the level.
#[derive(Clone, Copy, Debug)]
pub struct ExponentialValue {
    pub base: LogNum,
}

impl ExponentialValue {
    /// An exponential curve with the given base.
    pub fn new(power: LogNum) -> (r: ExponentialValue)
        ensures
            r.base == power,
            r.inv(),
    {
        ExponentialValue { base: power }
    }
}

impl ValueTrait for ExponentialValue {
    open spec fn inv(&self) -> bool {
        true
    }

    open spec fn spec_from_zero(&self, level: int) -> LogVal {
        spec_powi(self.base@, level)
    }

    open spec fn spec_next(&self, old_value: LogVal, level: int) -> LogVal {
        spec_mul(old_value, self.base@)
    }

    fn compute_from_zero(&self, level: i32) -> (r: LogNum) {
        self.base.powi(level)
    }

    fn compute_next(&self, old_value: LogNum, current_level: i32) -> (r: LogNum) {
        old_value.mul(self.base)
    }
}

/// Output sums powers of the base over buckets of `length` levels:
/// with `d = length / (base - 1)`, the closed form at level `L` is
/// `(d + L mod length) * base^(L / length) - d + offset`, and one more
/// purchase adds `base^(L / length)`.
#[derive(Clone, Copy, Debug)]
pub struct StepwisePowerSumValue {
    pub base: LogNum,
    pub length: i32,
    pub offset: LogNum,
}

impl StepwisePowerSumValue {
    /// A stepwise power-sum curve; a base of exactly one leaves `d`
    /// undefined and is a domain error, and the bucket length must be
    /// positive.
    pub fn new(base: LogNum, length: i32, offset: LogNum) -> (r: Result<
        StepwisePowerSumValue,
        DomainError,
    >)
        requires
            length >= 1,
        ensures
            (r is Err) == (base@ == (LogVal::Fin { neg: false, mag: 0 })),
            (r matches Ok(c) ==> c.inv() && c.base == base && c.length == length && c.offset
                == offset),
    {
        if base.is_one() {
            Result::Err(DomainError)
        } else {
            Result::Ok(StepwisePowerSumValue { base, length, offset })
        }
    }

    /// The bucket term `d = length / (base - 1)`.
    pub open spec fn spec_d(&self) -> LogVal {
        spec_div(
            spec_from_int(self.length as int),
            spec_sub(self.base@, LogVal::Fin { neg: false, mag: 0 }),
        )
    }
}

impl ValueTrait for StepwisePowerSumValue {
    open spec fn inv(&self) -> bool {
        self.length >= 1 && self.base@ != (LogVal::Fin { neg: false, mag: 0 })
    }

    open spec fn spec_from_zero(&self, level: int) -> LogVal {
        let int_part = level / (self.length as int);
        let mod_part = level % (self.length as int);
        spec_add(
            spec_sub(
                spec_mul(
                    spec_add(self.spec_d(), spec_from_int(mod_part)),
                    spec_powi(self.base@, int_part),
                ),
                self.spec_d(),
            ),
            self.offset@,
        )
    }

    open spec fn spec_next(&self, old_value: LogVal, level: int) -> LogVal {
        spec_add(old_value, spec_powi(self.base@, level / (self.length as int)))
    }

    fn compute_from_zero(&self, level: i32) -> (r: LogNum) {
        proof {
            vstd::arithmetic::div_mod::lemma_div_nonincreasing(level as int, self.length as int);
            vstd::arithmetic::div_mod::lemma_div_pos_is_pos(level as int, self.length as int);
            vstd::arithmetic::div_mod::lemma_mod_bound(level as int, self.length as int);
        }
        let int_part = level / self.length;
        let mod_part = level % self.length;
        let d = LogNum::from_int(self.length as i64).div(self.base.sub(LogNum::one()));
        d.add(LogNum::from_int(mod_part as i64)).mul(self.base.powi(int_part)).sub(d).add(
            self.offset,
        )
    }

    fn compute_next(&self, old_value: LogNum, current_level: i32) -> (r: LogNum) {
        proof {
            vstd::arithmetic::div_mod::lemma_div_nonincreasing(
                current_level as int,
                self.length as int,
            );
            vstd::arithmetic::div_mod::lemma_div_pos_is_pos(
                current_level as int,
                self.length as int,
            );
        }
        old_value.add(self.base.powi(current_level / self.length))
    }
}

/// A value curve of any shape: the closed variants, or an opaque outside
/// implementation of the trait.
pub enum Value {
    Stepwise(StepwisePowerSumValue),
    Exponential(ExponentialValue),
    Linear(LinearValue),
    Other(Box<dyn ValueTrait>),
}

impl Value {
    /// Internal consistency of the held curve.
    pub open spec fn inv(&self) -> bool {
        match self {
            Value::Stepwise(v) => v.inv(),
            Value::Exponential(v) => v.inv(),
            Value::Linear(v) => v.inv(),
            Value::Other(b) => b.inv(),
        }
    }

    /// The output from level zero of the held curve.
    pub open spec fn spec_from_zero(&self, level: int) -> LogVal {
        match self {
            Value::Stepwise(v) => v.spec_from_zero(level),
            Value::Exponential(v) => v.spec_from_zero(level),
            Value::Linear(v) => v.spec_from_zero(level),
            Value::Other(b) => b.spec_from_zero(level),
        }
    }

    /// The incremental output of the held curve.
    pub open spec fn spec_next(&self, old_value: LogVal, level: int) -> LogVal {
        match self {
            Value::Stepwise(v) => v.spec_next(old_value, level),
            Value::Exponential(v) => v.spec_next(old_value, level),
            Value::Linear(v) => v.spec_next(old_value, level),
            Value::Other(b) => b.spec_next(old_value, level),
        }
    }

    /// A stepwise power-sum curve; a base of one is a domain error.
    pub fn new_stepwise(base: LogNum, length: i32, offset: LogNum) -> (r: Result<
        Value,
        DomainError,
    >)
        requires
            length >= 1,
        ensures
            (r is Err) == (base@ == (LogVal::Fin { neg: false, mag: 0 })),
            (r matches Ok(v) ==> v.inv() && (v matches Value::Stepwise(w) && w.base == base
                && w.length == length && w.offset == offset)),
    {
        match StepwisePowerSumValue::new(base, length, offset) {
            Result::Err(e) => Result::Err(e),
            Result::Ok(v) => Result::Ok(Value::Stepwise(v)),
        }
    }

    /// An exponential curve.
    pub fn new_exponential(power: LogNum) -> (r: Value)
        ensures
            r.inv(),
            r == Value::Exponential(ExponentialValue { base: power }),
    {
        Value::Exponential(ExponentialValue::new(power))
    }

    /// A linear curve.
    pub fn new_linear(power: LogNum, offset: LogNum) -> (r: Value)
        ensures
            r.inv(),
            r == Value::Linear(LinearValue { slope: power, offset }),
    {
        Value::Linear(LinearValue::new(power, offset))
    }

    /// Any outside implementation of the curve trait. The link between
    /// the boxed curve and the wrapper is not visible to the verifier:
    /// the opaque variant serves unverified extensions.
    pub fn new(model: Box<dyn ValueTrait>) -> Value {
        Value::Other(model)
    }

    /// Evaluates the output from level zero.
    pub fn compute_from_zero(&self, level: i32) -> (r: LogNum)
        requires
            self.inv(),
            level >= 0,
        ensures
            r@ == self.spec_from_zero(level as int),
    {
        match self {
            Value::Stepwise(v) => v.compute_from_zero(level),
            Value::Exponential(v) => v.compute_from_zero(level),
            Value::Linear(v) => v.compute_from_zero(level),
            Value::Other(b) => b.compute_from_zero(level),
        }
    }

    /// Advances a previous output by one purchase.
    pub fn compute_next(&self, old_value: LogNum, current_level: i32) -> (r: LogNum)
        requires
            self.inv(),
            current_level >= 0,
        ensures
            r@ == self.spec_next(old_value@, current_level as int),
    {
        match self {
            Value::Stepwise(v) => v.compute_next(old_value, current_level),
            Value::Exponential(v) => v.compute_next(old_value, current_level),
            Value::Linear(v) => v.compute_next(old_value, current_level),
            Value::Other(b) => b.compute_next(old_value, current_level),
        }
    }
}

} // verus!
