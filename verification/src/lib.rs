//! A "basket" asset accounting engine.
//!
//! A basket is a composite unit backed by fixed ratios of several underlying
//! assets held as per-account credit balances.  Accounts wrap underlying
//! credits into composite units (a fee is skimmed for the basket's owner and
//! for the platform) and burning composite units restores the proportional
//! underlying credits.

pub mod arith;
pub mod contract;
pub mod credit_ledger;
pub mod errors;
pub mod set_info;
pub mod token_ledger;
