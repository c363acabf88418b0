//! The balance that keeps an account on the ledger.

use solana_program::rent::Rent;
use vstd::prelude::*;

verus! {

/// Largest account size for which the rent is computed here.
pub const MAX_RENT_LEN: usize = 0x7FFF_FFFF;

/// Native currency per byte that keeps an account exempt from rent under the host's default
/// schedule: 3480 per byte and year, over two years.
pub const RENT_PER_BYTE: u64 = 6960;

/// Bytes that the host adds to an account's size when it computes rent.
pub const RENT_OVERHEAD: u64 = 128;

/// The least balance with which an account of `len` bytes is exempt from rent under the
/// host's default schedule.
pub open spec fn rent_minimum(len: nat) -> nat {
    (RENT_OVERHEAD as nat + len) * (RENT_PER_BYTE as nat)
}

/// Calls `Rent::default().minimum_balance(len)`: the sum of the size and the storage overhead
/// of 128 bytes, times the default rate of 3480, times the default exemption threshold of two
/// years. For the sizes admitted here the product is exact in the host's arithmetic.
#[verifier::external_body]
pub(crate) fn default_minimum_balance(len: usize) -> (r: u64)
    requires
        len <= MAX_RENT_LEN,
    ensures
        r == rent_minimum(len as nat),
{
    Rent::default().minimum_balance(len)
}

/// The least balance with which an account of `len` bytes is exempt from rent, or `None`
/// where `len` is beyond any account of the ledger.
pub fn rent_exempt_minimum(len: usize) -> (r: Option<u64>)
    ensures
        r == if len <= MAX_RENT_LEN {
            Some(rent_minimum(len as nat) as u64)
        } else {
            None
        },
        len <= MAX_RENT_LEN ==> rent_minimum(len as nat) <= u64::MAX,
{
    if len <= MAX_RENT_LEN {
        Some(default_minimum_balance(len))
    } else {
        None
    }
}

} // verus!
