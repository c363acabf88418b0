//! State-transition rules of a bonding-curve token issuance protocol.
//!
//! Operators run token families under a shared reserve of base currency. Clients mint and
//! burn tokens against the reserve at the price of a bonding curve, and every trade pays a fee
//! that is split among the protocol holder, the operator and a referrer.
//!
//! Every operation is a function from the accounts and parameters it is given to the new
//! contents of the ledger entries it owns, the transfers it asks the external ledger for and
//! the audit events it emits. Nothing here performs I/O: the embedding program reads the
//! accounts, calls an operation, carries its intents out and stores the returned entries. An
//! operation that fails returns a failure and nothing else, so no partial effect exists.
//!
//! Prices, rates and ratios are stored as binary64 patterns, and trades are priced in
//! binary64 arithmetic, which is computed here on the patterns, in integers. Every amount of
//! money is the whole part of such a number: it is cut toward zero.

pub mod account;
pub mod action;
pub mod address;
pub mod binary64;
pub mod bytes;
pub mod constants;
pub mod context;
pub mod curve;
pub mod dispatch;
pub mod error;
pub mod fees;
pub mod ledger;
pub mod log;
pub mod naming;
pub mod processor;
pub mod registry;
pub mod rent;
pub mod state;
pub mod trade;

pub use dispatch::process_instruction;
