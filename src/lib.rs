//! A small token economy as verified state machines: a fee-bearing token
//! ledger, token-weighted governance, a staking program with time-based
//! rewards, and a marketplace that splits each sale into a royalty and a
//! creator payment.
//!
//! Every operation validates all of its inputs before it writes any record,
//! so a failed operation leaves every record as it was. Value movements are
//! not performed here: an operation returns the ledger calls that its host
//! must carry out within the same transaction.
pub mod address;
pub mod bps;
pub mod governance;
pub mod ledger;
pub mod marketplace;
pub mod staking;
pub mod token;
