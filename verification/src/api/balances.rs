//! Account balances.
use vstd::prelude::*;
use crate::common::Decimal;

verus! {

#[derive(Clone, Debug)]
pub struct Data {
    pub cash_balance: Decimal,
    pub net_liquidating_value: Decimal,
    pub equity_buying_power: Decimal,
    pub derivative_buying_power: Decimal,
}

} // verus!
