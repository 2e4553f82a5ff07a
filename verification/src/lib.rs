//! An in-memory account ledger: credit/debit transactions against a fixed set
//! of pre-provisioned accounts, a per-account overdraft limit, and a bounded
//! per-account transaction history.

pub mod account;
mod clock;
pub mod history;
pub mod laws;
pub mod store;
pub mod transaction;
