//! Records of the brokerage's CSV exports, as the conversions read them.
use vstd::prelude::*;
use crate::common::{Decimal, Timestamp};

verus! {

/// One row of the positions export.
#[derive(Clone, Debug)]
pub struct Position {
    pub symbol: String,
    /// Signed number of contracts or shares: negative for short positions.
    pub quantity: i32,
    /// `"OPTION"` or `"STOCK"`.
    pub instrument_type: String,
}

/// Opening and closing actions as the transactions export names them.
#[derive(Clone, Copy, Debug, PartialEq, Eq, Structural, Hash)]
pub enum TradeAction {
    SellToOpen,
    BuyToOpen,
    SellToClose,
    BuyToClose,
}

/// One row of the transactions export.
#[derive(Clone, Debug)]
pub struct Transaction {
    pub date: Timestamp,
    /// `"Trade"`, `"Receive Deliver"` or `"Money Movement"`.
    pub trade_type: String,
    pub action: Option<TradeAction>,
    pub symbol: Option<String>,
    /// The API's instrument type name, e.g. `"Equity Option"`.
    pub instrument_type: Option<String>,
    pub underlying_symbol: Option<String>,
    pub description: String,
    /// Signed cash value: positive when credited.
    pub value: Decimal,
    pub quantity: Decimal,
    pub commissions: Option<Decimal>,
    /// Signed total of all fees: positive when credited.
    pub fees: Decimal,
}

} // verus!
