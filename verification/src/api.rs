//! Records exchanged with the tastyworks API.
use vstd::prelude::*;

pub mod accounts;
pub mod balances;
pub mod market_metrics;
pub mod option_chains;
pub mod positions;
pub mod transactions;
pub mod watchlists;

verus! {

/// Which page of a paginated response this is.
#[derive(Clone, Copy, Debug, PartialEq, Eq, Structural)]
pub struct Pagination {
    pub page_offset: i32,
    pub total_pages: i32,
}

/// Kind of traded instrument.
#[derive(Clone, Copy, Debug, PartialEq, Eq, Structural, Hash)]
pub enum InstrumentType {
    Equity,
    EquityOption,
    Future,
    FutureOption,
    Index,
    Cryptocurrency,
    Unknown,
}

} // verus!
