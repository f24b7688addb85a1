//! A small digital-goods ledger.
//!
//! The ledger tracks, per account, an ordered list of mintable items
//! ("creations"), each item's sale state and price, ownership transfers
//! between accounts, and each account's accrued, withdrawable earnings
//! from sales.  The whole state lives in one [`ledger::Contract`] value;
//! the surrounding host (persistent storage, caller identity, native
//! value transfer) stays outside the library and exchanges plain values
//! with it.

pub mod items;
pub mod laws;
pub mod ledger;
