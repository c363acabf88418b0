//! Append-only arrays of fixed-size records in the tail of an account.
//!
//! The records follow a header of fixed size. Record `i` starts at `header + i * size`; its
//! position is its id. Appending grows the account by one record where it is too short: the
//! admin first funds it up to the balance that its new size asks for.

use crate::account::AccountView;
use crate::action::Action;
use crate::address::Address;
use crate::ledger::record_start;
use vstd::prelude::*;

verus! {

/// What an append gives: the new header, the record and where it goes.
#[derive(Clone, Copy, Debug, PartialEq, Eq)]
pub struct Appended<H, R> {
    /// The header, with the record counted.
    pub header: H,
    /// The record that is appended.
    pub record: R,
    /// The id of the record: the count before the append.
    pub id: u32,
    /// The byte at which the record starts in the account.
    pub offset: usize,
}

/// What is missing of `balance` to reach `minimum`.
pub open spec fn shortfall(minimum: u64, balance: u64) -> u64 {
    if minimum > balance {
        (minimum - balance) as u64
    } else {
        0
    }
}

/// The intents that make room for an account of `new_size` bytes: none where the account is
/// long enough; otherwise the funding of what its balance lacks of `minimum`, then the growth.
/// The funding of nothing is left out unless `always_fund` holds.
pub open spec fn growth_actions(
    payer: Address,
    account: AccountView,
    new_size: nat,
    minimum: u64,
    always_fund: bool,
) -> Seq<Action> {
    if account.data@.len() < new_size {
        let lamports = shortfall(minimum, account.lamports);
        let fund = if always_fund || lamports > 0 {
            seq![Action::Fund { from: payer, to: account.key, lamports }]
        } else {
            Seq::empty()
        };
        fund + seq![Action::Grow { account: account.key, new_size: new_size as usize }]
    } else {
        Seq::empty()
    }
}

/// The count of a registry after `n` appends that start at `count`, and the ids that the
/// appends assigned, in order: each append assigns the count it finds and adds one to it.
pub open spec fn after_appends(count: nat, n: nat) -> (nat, Seq<nat>)
    decreases n,
{
    if n == 0 {
        (count, Seq::empty())
    } else {
        let before = after_appends(count, (n - 1) as nat);
        (before.0 + 1, before.1.push(before.0))
    }
}

/// Appending is monotonic: after `n` appends the count is `count + n`, and the ids assigned
/// are `count`, `count + 1`, and so on up to `count + n - 1`, in this order.
pub proof fn appends_are_monotonic(count: nat, n: nat)
    ensures
        after_appends(count, n).0 == count + n,
        after_appends(count, n).1.len() == n,
        forall|i: int| 0 <= i < n ==> after_appends(count, n).1[i] == count + i,
    decreases n,
{
    if n > 0 {
        appends_are_monotonic(count, (n - 1) as nat);
    }
}

/// Records of a registry never overlap, and a later record starts after an earlier one ends.
pub proof fn records_are_disjoint(header: nat, size: nat, i: nat, j: nat)
    requires
        i < j,
    ensures
        record_start(header, size, i) + size <= record_start(header, size, j),
{
    assert(i * size + size <= j * size) by (nonlinear_arith)
        requires
            i < j,
    ;
}

/// Builds the intents that make room for an account of `new_size` bytes.
pub fn grow(payer: &Address, account: &AccountView, new_size: usize, minimum: u64, always_fund: bool) -> (r:
    Vec<Action>)
    ensures
        r@ == growth_actions(*payer, *account, new_size as nat, minimum, always_fund),
{
    let mut actions: Vec<Action> = Vec::new();
    if account.data.len() < new_size {
        let lamports: u64 = if minimum > account.lamports {
            minimum - account.lamports
        } else {
            0
        };
        if always_fund || lamports > 0 {
            actions.push(Action::Fund { from: *payer, to: account.key, lamports });
        }
        actions.push(Action::Grow { account: account.key, new_size });
    }
    assert(actions@ =~= growth_actions(*payer, *account, new_size as nat, minimum, always_fund));
    actions
}

} // verus!
