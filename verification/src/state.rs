//! The entries that the protocol keeps on the ledger, and their stored forms.

pub mod client;
pub mod holder;
pub mod root;
pub mod token;
