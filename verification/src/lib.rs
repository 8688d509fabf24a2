//! Data model of the tastyworks brokerage API, with verified arithmetic on
//! amounts and verified conversions from exported CSV records.

pub mod rational;
pub mod common;
pub mod text;
pub mod csv;
pub mod api;
