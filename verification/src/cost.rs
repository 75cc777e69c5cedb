//! Purchase-price curves over an integer level.
//!
//! Every curve answers two queries: the cost of the step up to a level and
//! the cumulative cost from level zero, both as log numbers, and both zero
//! at and below level zero. The closed family is constant, exponential,
//! stepwise bucketing, composite switching and first-free shifting; an
//! opaque variant carries any outside implementation of the same trait.
//! The consistency of each cumulative form with the plain sum of its
//! single-step costs is proved in `laws`.

use vstd::prelude::*;
use crate::lognum::{
    LogNum, LogVal, DomainError, spec_add, spec_mul, spec_div, spec_sub, spec_powi,
    spec_from_int, spec_pow_err, spec_pow_scaled, spec_to_scaled,
};

verus! {

/// A purchase-price curve.
pub trait CostTrait {
    /// Internal consistency of the curve's parameters.
    spec fn inv(&self) -> bool;

    /// The cost of the purchase that reaches `level` from the level below.
    spec fn spec_cost_to(&self, level: int) -> LogVal;

    /// The cumulative cost of reaching `level` from level zero.
    spec fn spec_total_cost_to(&self, level: int) -> LogVal;

    /// Evaluates the single-step cost.
    fn get_cost_to(&self, level: i32) -> (r: LogNum)
        requires
            self.inv(),
            level > i32::MIN,
        ensures
            r@ == self.spec_cost_to(level as int),
    ;

    /// Evaluates the cumulative cost.
    fn get_total_cost_to(&self, level: i32) -> (r: LogNum)
        requires
            self.inv(),
            level > i32::MIN,
        ensures
            r@ == self.spec_total_cost_to(level as int),
    ;

    /// The cost of the next purchase from the current level, shared by
    /// every variant.
    fn get_cost(&self, current_level: i32) -> (r: LogNum)
        requires
            self.inv(),
            current_level < i32::MAX,
        ensures
            r@ == self.spec_cost_to(current_level + 1),
    {
        self.get_cost_to(current_level + 1)
    }
}

/// The same price at every level.
#[derive(Clone, Copy, Debug)]
pub struct ConstantCost {
    pub cost: LogNum,
}

impl ConstantCost {
    /// The view of the configured price.
    pub open spec fn spec_cost(&self) -> LogVal {
        self.cost@
    }

    /// A constant curve with the given price per level.
    pub fn new(cost: LogNum) -> (r: ConstantCost)
        ensures
            r.cost == cost,
            r.inv(),
    {
        ConstantCost { cost }
    }
}

impl CostTrait for ConstantCost {
    open spec fn inv(&self) -> bool {
        true
    }

    open spec fn spec_cost_to(&self, level: int) -> LogVal {
        if level <= 0 {
            LogVal::Zero
        } else {
            self.cost@
        }
    }

    open spec fn spec_total_cost_to(&self, level: int) -> LogVal {
        if level <= 0 {
            LogVal::Zero
        } else {
            spec_mul(self.cost@, spec_from_int(level))
        }
    }

    fn get_cost_to(&self, level: i32) -> (r: LogNum) {
        if level <= 0 {
            LogNum::zero()
        } else {
            self.cost
        }
    }

    fn get_total_cost_to(&self, level: i32) -> (r: LogNum) {
        if level <= 0 {
            LogNum::zero()
        } else {
            self.cost.mul(LogNum::from_int(level as i64))
        }
    }
}

/// Price grows geometrically: `coefficient * base^(level-1)` per step.
#[derive(Clone, Copy, Debug)]
pub struct ExponentialCost {
    pub coefficient: LogNum,
    pub base: LogNum,
}

impl ExponentialCost {
    /// The views of the configured coefficient and base.
    pub open spec fn spec_coefficient(&self) -> LogVal {
        self.coefficient@
    }

    /// The view of the configured base.
    pub open spec fn spec_base(&self) -> LogVal {
        self.base@
    }

    /// An exponential curve; a base of exactly one leaves the cumulative
    /// form undefined and is a domain error.
    pub fn new(coefficient: LogNum, base: LogNum) -> (r: Result<ExponentialCost, DomainError>)
        ensures
            (r is Err) == (base@ == (LogVal::Fin { neg: false, mag: 0 })),
            (r matches Ok(c) ==> c.inv() && c.coefficient == coefficient && c.base == base),
    {
        if base.is_one() {
            Result::Err(DomainError)
        } else {
            Result::Ok(ExponentialCost { coefficient, base })
        }
    }

    /// An exponential curve whose base is given as a power of two: the
    /// stored base is two raised to the given log-number exponent. The
    /// call fails exactly where that power is undefined or equals one.
    pub fn new_log2(coefficient: LogNum, base: LogNum) -> (r: Result<
        ExponentialCost,
        DomainError,
    >)
        ensures
            (r is Err) == (spec_pow_err(spec_from_int(2), spec_to_scaled(base@))
                || spec_pow_scaled(spec_from_int(2), spec_to_scaled(base@)) == (LogVal::Fin {
                neg: false,
                mag: 0,
            })),
            (r matches Ok(c) ==> c.inv() && c.spec_coefficient() == coefficient@
                && c.spec_base() == spec_pow_scaled(spec_from_int(2), spec_to_scaled(base@))),
    {
        let two = LogNum::from_int(2);
        match two.pow(base) {
            Result::Err(e) => Result::Err(e),
            Result::Ok(b) => ExponentialCost::new(coefficient, b),
        }
    }
}

impl CostTrait for ExponentialCost {
    open spec fn inv(&self) -> bool {
        self.base@ != (LogVal::Fin { neg: false, mag: 0 })
    }

    open spec fn spec_cost_to(&self, level: int) -> LogVal {
        if level <= 0 {
            LogVal::Zero
        } else {
            spec_mul(self.coefficient@, spec_powi(self.base@, level - 1))
        }
    }

    open spec fn spec_total_cost_to(&self, level: int) -> LogVal {
        if level <= 0 {
            LogVal::Zero
        } else {
            spec_div(
                spec_mul(
                    self.coefficient@,
                    spec_sub(spec_powi(self.base@, level), LogVal::Fin { neg: false, mag: 0 }),
                ),
                spec_sub(self.base@, LogVal::Fin { neg: false, mag: 0 }),
            )
        }
    }

    fn get_cost_to(&self, level: i32) -> (r: LogNum) {
        if level <= 0 {
            LogNum::zero()
        } else {
            self.coefficient.mul(self.base.powi(level - 1))
        }
    }

    fn get_total_cost_to(&self, level: i32) -> (r: LogNum) {
        if level <= 0 {
            LogNum::zero()
        } else {
            self.coefficient.mul(self.base.powi(level).sub(LogNum::one())).div(
                self.base.sub(LogNum::one()),
            )
        }
    }
}

/// Levels grouped into buckets of `step`: every level in a bucket costs
/// what the inner curve asks for that bucket.
#[derive(Clone, Copy, Debug)]
pub struct StepwiseCost<T: CostTrait> {
    pub model: T,
    pub step: i32,
}

impl<T: CostTrait> StepwiseCost<T> {
    /// The inner curve.
    pub open spec fn spec_model(&self) -> &T {
        &self.model
    }

    /// The bucket width.
    pub open spec fn spec_step(&self) -> int {
        self.step as int
    }

    /// A stepwise curve over an inner curve; the bucket width must be
    /// positive, or the level arithmetic is undefined.
    pub fn new(model: T, step: i32) -> (r: StepwiseCost<T>)
        requires
            step >= 1,
        ensures
            r.spec_step() == step,
            r.spec_model() == &model,
    {
        StepwiseCost { model, step }
    }
}

impl<T: CostTrait> CostTrait for StepwiseCost<T> {
    open spec fn inv(&self) -> bool {
        self.step >= 1 && self.model.inv()
    }

    open spec fn spec_cost_to(&self, level: int) -> LogVal {
        if level <= 0 {
            LogVal::Zero
        } else {
            self.model.spec_cost_to((level - 1) / (self.step as int) + 1)
        }
    }

    open spec fn spec_total_cost_to(&self, level: int) -> LogVal {
        if level <= 0 {
            LogVal::Zero
        } else {
            let int_part = (level - 1) / (self.step as int);
            let mod_part = (level - 1) % (self.step as int) + 1;
            spec_add(
                spec_mul(self.model.spec_total_cost_to(int_part), spec_from_int(self.step as int)),
                spec_mul(self.model.spec_cost_to(int_part + 1), spec_from_int(mod_part)),
            )
        }
    }

    fn get_cost_to(&self, level: i32) -> (r: LogNum) {
        if level <= 0 {
            LogNum::zero()
        } else {
            proof {
                lemma_level_div_bounds(level - 1, self.step as int);
            }
            self.model.get_cost_to((level - 1) / self.step + 1)
        }
    }

    fn get_total_cost_to(&self, level: i32) -> (r: LogNum) {
        if level <= 0 {
            LogNum::zero()
        } else {
            proof {
                lemma_level_div_bounds(level - 1, self.step as int);
            }
            let int_part = (level - 1) / self.step;
            let mod_part = (level - 1) % self.step + 1;
            self.model.get_total_cost_to(int_part).mul(LogNum::from_int(self.step as i64)).add(
                self.model.get_cost_to(int_part + 1).mul(LogNum::from_int(mod_part as i64)),
            )
        }
    }
}

/// Division of a non-negative level by a positive bucket width stays
/// within the level range.
proof fn lemma_level_div_bounds(x: int, s: int)
    requires
        0 <= x,
        1 <= s,
    ensures
        0 <= x / s <= x,
        0 <= x % s < s,
{
    vstd::arithmetic::div_mod::lemma_div_nonincreasing(x, s);
    vstd::arithmetic::div_mod::lemma_div_pos_is_pos(x, s);
    vstd::arithmetic::div_mod::lemma_mod_bound(x, s);
}

/// Two curves joined at a cutoff level: at or below it the first answers,
/// above it the second answers for the level count past the cutoff.
#[derive(Clone, Copy, Debug)]
pub struct CompositeCost<T: CostTrait, U: CostTrait> {
    pub model1: T,
    pub model2: U,
    pub cutoff: i32,
}

impl<T: CostTrait, U: CostTrait> CompositeCost<T, U> {
    /// A composite curve switching from `model1` to `model2` past
    /// `cutoff`, which cannot be negative.
    pub fn new(model1: T, model2: U, cutoff: i32) -> (r: CompositeCost<T, U>)
        requires
            cutoff >= 0,
        ensures
            r.model1 == model1,
            r.model2 == model2,
            r.cutoff == cutoff,
    {
        CompositeCost { model1, model2, cutoff }
    }
}

impl<T: CostTrait, U: CostTrait> CostTrait for CompositeCost<T, U> {
    open spec fn inv(&self) -> bool {
        self.cutoff >= 0 && self.model1.inv() && self.model2.inv()
    }

    open spec fn spec_cost_to(&self, level: int) -> LogVal {
        if level <= 0 {
            LogVal::Zero
        } else if level <= self.cutoff {
            self.model1.spec_cost_to(level)
        } else {
            self.model2.spec_cost_to(level - self.cutoff)
        }
    }

    open spec fn spec_total_cost_to(&self, level: int) -> LogVal {
        if level <= 0 {
            LogVal::Zero
        } else if level <= self.cutoff {
            self.model1.spec_total_cost_to(level)
        } else {
            spec_add(
                self.model2.spec_total_cost_to(level - self.cutoff),
                self.model1.spec_total_cost_to(self.cutoff as int),
            )
        }
    }

    fn get_cost_to(&self, level: i32) -> (r: LogNum) {
        if level <= 0 {
            LogNum::zero()
        } else if level <= self.cutoff {
            self.model1.get_cost_to(level)
        } else {
            self.model2.get_cost_to(level - self.cutoff)
        }
    }

    fn get_total_cost_to(&self, level: i32) -> (r: LogNum) {
        if level <= 0 {
            LogNum::zero()
        } else if level <= self.cutoff {
            self.model1.get_total_cost_to(level)
        } else {
            self.model2.get_total_cost_to(level - self.cutoff).add(
                self.model1.get_total_cost_to(self.cutoff),
            )
        }
    }
}

/// The inner curve shifted down one level, making the first purchase free
/// whenever the inner level-zero cost is zero.
#[derive(Clone, Copy, Debug)]
pub struct FirstFreeCost<T: CostTrait> {
    pub model: T,
}

impl<T: CostTrait> FirstFreeCost<T> {
    /// The inner curve.
    pub open spec fn spec_model(&self) -> &T {
        &self.model
    }

    /// A first-free wrapper around an inner curve.
    pub fn new(model: T) -> (r: FirstFreeCost<T>)
        ensures
            r.spec_model() == &model,
    {
        FirstFreeCost { model }
    }
}

impl<T: CostTrait> CostTrait for FirstFreeCost<T> {
    open spec fn inv(&self) -> bool {
        self.model.inv()
    }

    open spec fn spec_cost_to(&self, level: int) -> LogVal {
        if level <= 0 {
            LogVal::Zero
        } else {
            self.model.spec_cost_to(level - 1)
        }
    }

    open spec fn spec_total_cost_to(&self, level: int) -> LogVal {
        if level <= 0 {
            LogVal::Zero
        } else {
            self.model.spec_total_cost_to(level - 1)
        }
    }

    fn get_cost_to(&self, level: i32) -> (r: LogNum) {
        if level <= 0 {
            LogNum::zero()
        } else {
            self.model.get_cost_to(level - 1)
        }
    }

    fn get_total_cost_to(&self, level: i32) -> (r: LogNum) {
        if level <= 0 {
            LogNum::zero()
        } else {
            self.model.get_total_cost_to(level - 1)
        }
    }
}

/// A cost curve of any shape: the closed variants, or an opaque outside
/// implementation of the trait.
pub enum Cost {
    Exponential(ExponentialCost),
    Constant(ConstantCost),
    Other(Box<dyn CostTrait>),
}

impl Cost {
    /// Internal consistency of the held curve.
    pub open spec fn inv(&self) -> bool {
        match self {
            Cost::Exponential(c) => c.inv(),
            Cost::Constant(c) => c.inv(),
            Cost::Other(b) => b.inv(),
        }
    }

    /// The single-step cost of the held curve.
    pub open spec fn spec_cost_to(&self, level: int) -> LogVal {
        match self {
            Cost::Exponential(c) => c.spec_cost_to(level),
            Cost::Constant(c) => c.spec_cost_to(level),
            Cost::Other(b) => b.spec_cost_to(level),
        }
    }

    /// The cumulative cost of the held curve.
    pub open spec fn spec_total_cost_to(&self, level: int) -> LogVal {
        match self {
            Cost::Exponential(c) => c.spec_total_cost_to(level),
            Cost::Constant(c) => c.spec_total_cost_to(level),
            Cost::Other(b) => b.spec_total_cost_to(level),
        }
    }

    /// An exponential curve; a base of one is a domain error.
    pub fn new_exponential(coefficient: LogNum, base: LogNum) -> (r: Result<Cost, DomainError>)
        ensures
            (r is Err) == (base@ == (LogVal::Fin { neg: false, mag: 0 })),
            (r matches Ok(c) ==> c.inv() && (c matches Cost::Exponential(e) && e.coefficient
                == coefficient && e.base == base)),
    {
        match ExponentialCost::new(coefficient, base) {
            Result::Err(e) => Result::Err(e),
            Result::Ok(c) => Result::Ok(Cost::Exponential(c)),
        }
    }

    /// A constant curve.
    pub fn new_constant(cost: LogNum) -> (r: Cost)
        ensures
            r.inv(),
            (r matches Cost::Constant(c) && c.cost == cost),
    {
        Cost::Constant(ConstantCost::new(cost))
    }

    /// Any outside implementation of the curve trait. The link between the
    /// boxed curve and the wrapper is not visible to the verifier: the
    /// opaque variant serves unverified extensions.
    pub fn new(model: Box<dyn CostTrait>) -> Cost {
        Cost::Other(model)
    }

    /// Evaluates the single-step cost.
    pub fn get_cost_to(&self, level: i32) -> (r: LogNum)
        requires
            self.inv(),
            level > i32::MIN,
        ensures
            r@ == self.spec_cost_to(level as int),
    {
        match self {
            Cost::Exponential(c) => c.get_cost_to(level),
            Cost::Constant(c) => c.get_cost_to(level),
            Cost::Other(b) => b.get_cost_to(level),
        }
    }

    /// Evaluates the cumulative cost.
    pub fn get_total_cost_to(&self, level: i32) -> (r: LogNum)
        requires
            self.inv(),
            level > i32::MIN,
        ensures
            r@ == self.spec_total_cost_to(level as int),
    {
        match self {
            Cost::Exponential(c) => c.get_total_cost_to(level),
            Cost::Constant(c) => c.get_total_cost_to(level),
            Cost::Other(b) => b.get_total_cost_to(level),
        }
    }

    /// The cost of the next purchase from the current level.
    pub fn get_cost(&self, current_level: i32) -> (r: LogNum)
        requires
            self.inv(),
            current_level < i32::MAX,
        ensures
            r@ == self.spec_cost_to(current_level + 1),
    {
        match self {
            Cost::Exponential(c) => c.get_cost(current_level),
            Cost::Constant(c) => c.get_cost(current_level),
            Cost::Other(b) => b.get_cost(current_level),
        }
    }
}

/// The curve invariant of the closed family: at and below level zero
/// there is nothing to buy, so both cost forms of every closed variant
/// are exactly zero, with the guards sitting in the wrappers
/// themselves, whatever the inner curves do.
pub proof fn lemma_costs_vanish_below_zero<T: CostTrait, U: CostTrait>(
    constant: &ConstantCost,
    exponential: &ExponentialCost,
    stepwise: &StepwiseCost<T>,
    composite: &CompositeCost<T, U>,
    first_free: &FirstFreeCost<T>,
    level: int,
)
    requires
        level <= 0,
    ensures
        constant.spec_cost_to(level) is Zero,
        constant.spec_total_cost_to(level) is Zero,
        exponential.spec_cost_to(level) is Zero,
        exponential.spec_total_cost_to(level) is Zero,
        stepwise.spec_cost_to(level) is Zero,
        stepwise.spec_total_cost_to(level) is Zero,
        composite.spec_cost_to(level) is Zero,
        composite.spec_total_cost_to(level) is Zero,
        first_free.spec_cost_to(level) is Zero,
        first_free.spec_total_cost_to(level) is Zero,
{
}

} // verus!
