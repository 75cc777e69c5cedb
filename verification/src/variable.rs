//! A purchasable variable: one cost curve, one value curve, a level, and
//! cached cost and value that are recomputed on every mutation.

use vstd::prelude::*;
use crate::lognum::LogNum;
use crate::cost::CostTrait;
use crate::value::ValueTrait;

verus! {

/// A named variable bound to a cost curve and a value curve. The cached
/// `cost` is always the price of the next purchase and `value` the output
/// at the current level, updated before either is read again.
#[derive(Debug)]
pub struct Variable<C: CostTrait, V: ValueTrait> {
    pub name: String,
    pub cost_model: C,
    pub value_model: V,
    pub level: i32,
    pub cost: LogNum,
    pub value: LogNum,
}

impl<C: CostTrait, V: ValueTrait> Variable<C, V> {
    /// Both curves are internally consistent and the level is in range.
    pub open spec fn models_ok(&self) -> bool {
        self.cost_model.inv() && self.value_model.inv() && 0 <= self.level < i32::MAX
    }

    /// A fresh variable at level zero, with cost and value computed.
    pub fn new(name: &str, cost_model: C, value_model: V) -> (r: Variable<C, V>)
        requires
            cost_model.inv(),
            value_model.inv(),
        ensures
            r.name@ == name@,
            r.cost_model == cost_model,
            r.value_model == value_model,
            r.level == 0,
            r.cost@ == cost_model.spec_cost_to(1),
            r.value@ == value_model.spec_from_zero(0),
            r.models_ok(),
    {
        let mut var = Variable {
            name: name.to_owned(),
            cost_model,
            value_model,
            level: 0,
            cost: LogNum::zero(),
            value: LogNum::zero(),
        };
        var.recompute();
        var
    }

    /// Refreshes the cached cost and value from the current level.
    pub fn recompute(&mut self)
        requires
            old(self).models_ok(),
        ensures
            final(self).name == old(self).name,
            final(self).cost_model == old(self).cost_model,
            final(self).value_model == old(self).value_model,
            final(self).level == old(self).level,
            final(self).cost@ == old(self).cost_model.spec_cost_to(old(self).level + 1),
            final(self).value@ == old(self).value_model.spec_from_zero(old(self).level as int),
            final(self).models_ok(),
    {
        self.cost = self.cost_model.get_cost(self.level);
        self.value = self.value_model.compute_from_zero(self.level);
    }

    /// One purchase: the value advances incrementally from the level
    /// before the purchase, then the level rises, then the cost is
    /// refreshed at the new level.
    pub fn buy(&mut self)
        requires
            old(self).models_ok(),
            old(self).level < i32::MAX - 1,
        ensures
            final(self).name == old(self).name,
            final(self).cost_model == old(self).cost_model,
            final(self).value_model == old(self).value_model,
            final(self).level == old(self).level + 1,
            final(self).value@ == old(self).value_model.spec_next(
                old(self).value@,
                old(self).level as int,
            ),
            final(self).cost@ == old(self).cost_model.spec_cost_to(old(self).level + 2),
            final(self).models_ok(),
    {
        self.value = self.value_model.compute_next(self.value, self.level);
        self.level = self.level + 1;
        self.cost = self.cost_model.get_cost(self.level);
    }

    /// An arbitrary jump: the level is set and both caches are recomputed
    /// from zero, with no incremental shortcut.
    pub fn set(&mut self, level: i32)
        requires
            old(self).cost_model.inv(),
            old(self).value_model.inv(),
            0 <= level < i32::MAX,
        ensures
            final(self).name == old(self).name,
            final(self).cost_model == old(self).cost_model,
            final(self).value_model == old(self).value_model,
            final(self).level == level,
            final(self).cost@ == old(self).cost_model.spec_cost_to(level + 1),
            final(self).value@ == old(self).value_model.spec_from_zero(level as int),
            final(self).models_ok(),
    {
        self.level = level;
        self.recompute();
    }
}

} // verus!
