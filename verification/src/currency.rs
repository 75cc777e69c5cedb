//! A named running balance in log-domain arithmetic.

use vstd::prelude::*;
use crate::lognum::{LogNum, LogVal, spec_add, spec_sub};

verus! {

/// A currency: a log-number balance under a display symbol.
#[derive(Debug, Clone)]
pub struct Currency {
    pub value: LogNum,
    pub symbol: String,
}

impl Currency {
    /// The primary resource currency.
    pub fn new_rho() -> (r: Currency)
        ensures
            r.value@ == LogVal::Zero,
            r.symbol@ == "\u{3c1}"@,
    {
        Currency { value: LogNum::zero(), symbol: "\u{3c1}".to_owned() }
    }

    /// An empty balance under the given symbol.
    pub fn new(symbol: &str) -> (r: Currency)
        ensures
            r.value@ == LogVal::Zero,
            r.symbol@ == symbol@,
    {
        Currency { value: LogNum::zero(), symbol: symbol.to_owned() }
    }

    /// Credits the balance.
    pub fn add(&mut self, value: LogNum)
        ensures
            final(self).value@ == spec_add(old(self).value@, value@),
            final(self).symbol == old(self).symbol,
    {
        self.value = self.value.add(value);
    }

    /// Debits the balance.
    pub fn subtract(&mut self, value: LogNum)
        ensures
            final(self).value@ == spec_sub(old(self).value@, value@),
            final(self).symbol == old(self).symbol,
    {
        self.value = self.value.sub(value);
    }
}

} // verus!
