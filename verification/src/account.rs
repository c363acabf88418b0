//! What an operation is told about a ledger account.

use crate::address::Address;
use vstd::prelude::*;

verus! {

/// A ledger account as the host presents it to an operation.
#[derive(Clone, Debug, PartialEq, Eq)]
pub struct AccountView {
    /// Address of the account.
    pub key: Address,
    /// Program that owns the account.
    pub owner: Address,
    /// Balance in the host's native currency.
    pub lamports: u64,
    /// Whether the account signed the operation.
    pub is_signer: bool,
    /// Whether the operation may change the account.
    pub is_writable: bool,
    /// Contents of the account.
    pub data: Vec<u8>,
}

/// The time at which an operation runs, captured once when it starts.
#[derive(Clone, Copy, Debug, PartialEq, Eq, Structural)]
pub struct Clock {
    /// Ledger slot.
    pub slot: u64,
    /// Seconds since the epoch, in 32 bits.
    pub time: u32,
}

/// What an operation is told about its surroundings.
#[derive(Clone, Copy, Debug, PartialEq, Eq)]
pub struct Host {
    /// The time at which the operation runs.
    pub clock: Clock,
    /// The wallet that administers the holder registry, set when the program is deployed.
    pub holder_admin: Address,
    /// The least balance that the host asks of a root ledger once it holds one more network
    /// record than now. Read only when a network is added.
    pub network_rent: u64,
}

} // verus!
