//! Purchase records and their lookup.

use vstd::prelude::*;
use crate::lognum::LogNum;

verus! {

/// One recorded purchase of a variable during a simulation step.
#[derive(Debug, Clone)]
pub struct VarBuy {
    pub var_name: String,
    pub level: i32,
    pub cost: LogNum,
    pub symbol: String,
    pub timestamp: LogNum,
}

/// The level of the first recorded purchase of the named variable, read
/// by the symbol each record carries; `None` when no record matches.
pub fn get_last_purchase(var_name: &str, var_buy_list: &[VarBuy]) -> (r: Option<i32>)
    ensures
        (r matches Some(lv) ==> exists|i: int|
            0 <= i < var_buy_list@.len() && var_buy_list@[i].symbol@ == var_name@ && lv
                == var_buy_list@[i].level && (forall|j: int|
                0 <= j < i ==> var_buy_list@[j].symbol@ != var_name@)),
        r is None ==> (forall|i: int|
            0 <= i < var_buy_list@.len() ==> var_buy_list@[i].symbol@ != var_name@),
{
    let key: String = var_name.to_owned();
    let n = var_buy_list.len();
    let mut i: usize = 0;
    while i < n
        invariant
            i <= n,
            n == var_buy_list@.len(),
            key@ == var_name@,
            forall|j: int| 0 <= j < i ==> var_buy_list@[j].symbol@ != var_name@,
        decreases n - i,
    {
        let buy = &var_buy_list[i];
        if buy.symbol == key {
            return Option::Some(buy.level);
        }
        i = i + 1;
    }
    Option::None
}

} // verus!
