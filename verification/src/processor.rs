//! The operations of the protocol.
//!
//! Each operation that checks derived addresses comes in two functions. The one named after
//! the operation derives the addresses and hands them to the other, whose name ends in
//! `_with`: that one holds the rules, as a function of plain values.

pub mod add_network;
pub mod add_operator;
pub mod burn;
pub mod change_client_data;
pub mod change_token_status;
pub mod initialize_holder;
pub mod initialize_root;
pub mod mint;
pub mod withdraw_holder_funds;
pub mod withdraw_operator_funds;
