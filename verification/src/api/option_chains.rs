//! Option chains: deliverables, expirations and strikes of an underlying.
use vstd::prelude::*;
use crate::api::InstrumentType;
use crate::common::{Decimal, ExpirationDate};

verus! {

#[derive(Clone, Debug)]
pub struct Item {
    pub underlying_symbol: String,
    pub root_symbol: String,
    pub option_chain_type: String,
    pub shares_per_contract: i32,
    pub deliverables: Vec<Deliverable>,
    pub expirations: Vec<Expiration>,
}

#[derive(Clone, Debug)]
pub struct TickSize {
    pub value: Decimal,
    pub threshold: Option<Decimal>,
}

#[derive(Clone, Debug)]
pub struct Deliverable {
    pub symbol: Option<String>,
    pub root_symbol: String,
    pub deliverable_type: String,
    pub description: String,
    pub amount: Decimal,
    pub instrument_type: Option<InstrumentType>,
    pub percent: i32,
}

#[derive(Clone, Debug)]
pub struct Expiration {
    pub expiration_type: ExpirationType,
    pub expiration_date: ExpirationDate,
    pub days_to_expiration: i32,
    pub settlement_type: String,
    /// Empty when the response lists no strikes.
    pub strikes: Vec<ExpirationStrike>,
}

#[derive(Clone, Copy, Debug, PartialEq, Eq, Structural, Hash)]
pub enum ExpirationType {
    Regular,
    Weekly,
    Quarterly,
}

#[derive(Clone, Debug)]
pub struct ExpirationStrike {
    pub strike_price: Decimal,
    pub call: String,
    pub put: String,
}

} // verus!
