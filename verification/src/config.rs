//! The fixed category enumeration and the one-time tuning configuration.

use vstd::prelude::*;
use crate::errors::SimError;

verus! {

/// The closed set of growth-mechanism categories.
#[derive(Debug, Clone, Copy, PartialEq, Eq, Structural, Hash)]
pub enum TheoryType {
    T1,
    T2,
    T3,
    T4,
    T5,
    T6,
    T7,
    T8,
    WSP,
    SL,
    EF,
    CSR2,
    FI,
    FP,
    RZ,
    MF,
    BaP,
    TC,
    BT,
}

/// The position of a category in the fixed enumeration.
pub open spec fn spec_theory_index(t: TheoryType) -> int {
    match t {
        TheoryType::T1 => 0,
        TheoryType::T2 => 1,
        TheoryType::T3 => 2,
        TheoryType::T4 => 3,
        TheoryType::T5 => 4,
        TheoryType::T6 => 5,
        TheoryType::T7 => 6,
        TheoryType::T8 => 7,
        TheoryType::WSP => 8,
        TheoryType::SL => 9,
        TheoryType::EF => 10,
        TheoryType::CSR2 => 11,
        TheoryType::FI => 12,
        TheoryType::FP => 13,
        TheoryType::RZ => 14,
        TheoryType::MF => 15,
        TheoryType::BaP => 16,
        TheoryType::TC => 17,
        TheoryType::BT => 18,
    }
}

/// The category at a position, if the position names one.
pub open spec fn spec_theory_from_index(i: int) -> Option<TheoryType> {
    if i == 0 { Option::Some(TheoryType::T1) }
    else if i == 1 { Option::Some(TheoryType::T2) }
    else if i == 2 { Option::Some(TheoryType::T3) }
    else if i == 3 { Option::Some(TheoryType::T4) }
    else if i == 4 { Option::Some(TheoryType::T5) }
    else if i == 5 { Option::Some(TheoryType::T6) }
    else if i == 6 { Option::Some(TheoryType::T7) }
    else if i == 7 { Option::Some(TheoryType::T8) }
    else if i == 8 { Option::Some(TheoryType::WSP) }
    else if i == 9 { Option::Some(TheoryType::SL) }
    else if i == 10 { Option::Some(TheoryType::EF) }
    else if i == 11 { Option::Some(TheoryType::CSR2) }
    else if i == 12 { Option::Some(TheoryType::FI) }
    else if i == 13 { Option::Some(TheoryType::FP) }
    else if i == 14 { Option::Some(TheoryType::RZ) }
    else if i == 15 { Option::Some(TheoryType::MF) }
    else if i == 16 { Option::Some(TheoryType::BaP) }
    else if i == 17 { Option::Some(TheoryType::TC) }
    else if i == 18 { Option::Some(TheoryType::BT) }
    else { Option::None }
}

impl TheoryType {
    /// The category at a position in the fixed enumeration, if any.
    pub fn try_from(i: usize) -> (r: Option<TheoryType>)
        ensures
            r == spec_theory_from_index(i as int),
    {
        match i {
            0usize => Option::Some(TheoryType::T1),
            1usize => Option::Some(TheoryType::T2),
            2usize => Option::Some(TheoryType::T3),
            3usize => Option::Some(TheoryType::T4),
            4usize => Option::Some(TheoryType::T5),
            5usize => Option::Some(TheoryType::T6),
            6usize => Option::Some(TheoryType::T7),
            7usize => Option::Some(TheoryType::T8),
            8usize => Option::Some(TheoryType::WSP),
            9usize => Option::Some(TheoryType::SL),
            10usize => Option::Some(TheoryType::EF),
            11usize => Option::Some(TheoryType::CSR2),
            12usize => Option::Some(TheoryType::FI),
            13usize => Option::Some(TheoryType::FP),
            14usize => Option::Some(TheoryType::RZ),
            15usize => Option::Some(TheoryType::MF),
            16usize => Option::Some(TheoryType::BaP),
            17usize => Option::Some(TheoryType::TC),
            18usize => Option::Some(TheoryType::BT),
            _ => Option::None,
        }
    }

    /// This category's position in the fixed enumeration.
    pub fn index(self) -> (r: usize)
        ensures
            r == spec_theory_index(self),
    {
        match self {
            TheoryType::T1 => 0,
            TheoryType::T2 => 1,
            TheoryType::T3 => 2,
            TheoryType::T4 => 3,
            TheoryType::T5 => 4,
            TheoryType::T6 => 5,
            TheoryType::T7 => 6,
            TheoryType::T8 => 7,
            TheoryType::WSP => 8,
            TheoryType::SL => 9,
            TheoryType::EF => 10,
            TheoryType::CSR2 => 11,
            TheoryType::FI => 12,
            TheoryType::FP => 13,
            TheoryType::RZ => 14,
            TheoryType::MF => 15,
            TheoryType::BaP => 16,
            TheoryType::TC => 17,
            TheoryType::BT => 18,
        }
    }
}

/// The tunable record of one category: its long-run growth exponent, a
/// fixed-point scalar in `fixedlog::SCALE` units.
#[derive(Debug, Clone, Copy, PartialEq, Eq, Structural)]
pub struct ConfigTheories {
    pub tau_factor: i64,
}

/// The one-time tuning document: a tuning record per category, and the
/// strategy category names.
#[derive(Debug, Clone)]
pub struct Config {
    pub theories: Vec<(TheoryType, ConfigTheories)>,
    pub strat_categories: Vec<String>,
}

/// The first tuning record for a category in the list, if any.
pub open spec fn spec_tau_lookup(entries: Seq<(TheoryType, ConfigTheories)>, t: TheoryType) -> Option<i64>
    decreases entries.len(),
{
    if entries.len() == 0 {
        Option::None
    } else if entries[0].0 == t {
        Option::Some(entries[0].1.tau_factor)
    } else {
        spec_tau_lookup(entries.skip(1), t)
    }
}

impl Config {
    /// Finds the tuning exponent configured for a category; a missing
    /// entry is the caller's configuration error.
    pub fn tau_factor(&self, t: TheoryType) -> (r: Option<i64>)
        ensures
            r == spec_tau_lookup(self.theories@, t),
    {
        let n = self.theories.len();
        let mut i: usize = 0;
        proof {
            assert(self.theories@.skip(0) =~= self.theories@);
        }
        while i < n
            invariant
                i <= n,
                n == self.theories@.len(),
                spec_tau_lookup(self.theories@.skip(i as int), t) == spec_tau_lookup(
                    self.theories@,
                    t,
                ),
            decreases n - i,
        {
            let entry = &self.theories[i];
            proof {
                assert(self.theories@.skip(i as int)[0] == self.theories@[i as int]);
                assert(self.theories@.skip(i as int).skip(1) =~= self.theories@.skip(i as int + 1));
            }
            if entry.0 == t {
                return Option::Some(entry.1.tau_factor);
            }
            i = i + 1;
        }
        proof {
            assert(self.theories@.skip(n as int).len() == 0);
        }
        Option::None
    }
}

/// The process-wide configuration cell: unset until loaded once, then
/// immutable; a second load attempt fails loudly.
#[derive(Debug)]
pub struct ConfigStore {
    pub inner: Option<Config>,
}

impl ConfigStore {
    /// The held configuration, if one was set.
    pub open spec fn spec_get(&self) -> Option<Config> {
        self.inner
    }

    /// A fresh, unset store.
    pub fn new() -> (r: ConfigStore)
        ensures
            r.spec_get() is None,
    {
        ConfigStore { inner: Option::None }
    }

    /// Sets the configuration exactly once; a second attempt is a
    /// configuration error and leaves the store unchanged.
    pub fn set(&mut self, cfg: Config) -> (r: Result<(), SimError>)
        ensures
            old(self).spec_get() is None ==> r is Ok && final(self).spec_get() == Option::Some(
                cfg,
            ),
            old(self).spec_get() is Some ==> r == Result::<(), SimError>::Err(
                SimError::Configuration,
            ) && *final(self) == *old(self),
    {
        match &self.inner {
            Option::Some(_) => Result::Err(SimError::Configuration),
            Option::None => {
                self.inner = Option::Some(cfg);
                Result::Ok(())
            },
        }
    }

    /// Reads the configuration, if set.
    pub fn get(&self) -> (r: Option<&Config>)
        ensures
            (r matches Some(c) && self.spec_get() == Option::Some(*c)) || (r is None
                && self.spec_get() is None),
    {
        match &self.inner {
            Option::Some(c) => Option::Some(c),
            Option::None => Option::None,
        }
    }
}

} // verus!
