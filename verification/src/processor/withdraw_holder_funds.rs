//! Sweep of the holder's fee pool.

use crate::account::{AccountView, Host};
use crate::action::{agrees, Effects, EffectsModel};
use crate::address::{derive_hype_authority, hype_authority, matches_address, Address};
use crate::error::{Failure, HypeError};
use crate::ledger::{
    check_holder_account, check_holder_admin, holder_account_check, holder_admin_check,
    load_root, owned_root,
};
use crate::processor::withdraw_operator_funds::{
    derive_fee_destination, fee_destination, sweep, sweep_actions,
};
use crate::state::holder::HolderAccount;
use crate::state::root::RootAccount;
use vstd::prelude::*;

verus! {

/// What the sweep of the holder's pool gives: the root ledger with an empty holder pool and
/// the transfer of all that the pool held, or the failure.
///
/// The accounts are the holder's admin, the holder registry, the root ledger, which the
/// program must own, the mint of the base currency, the reserve, the holder's wallet, the
/// wallet's token account, the token program and the program's authority. The mint and the
/// reserve must be those of the root ledger, the wallet the one of the registry, and the
/// receiving account the one at `destination`, the wallet's token account for the base
/// currency.
pub open spec fn holder_withdrawal(
    program_id: Address,
    accounts: Seq<AccountView>,
    host: Host,
    authority: Option<(Address, u8)>,
    destination: Option<Address>,
) -> Result<(RootAccount, EffectsModel), Failure> {
    if accounts.len() < 9 {
        Err(Failure::NotEnoughAccountKeys)
    } else {
        match holder_account_check(accounts[1], program_id, false) {
            Err(e) => Err(e),
            Ok(_) => match owned_root(program_id, accounts[2]) {
                Err(e) => Err(e),
                Ok(root) => match holder_admin_check(accounts[0], host.holder_admin) {
                    Err(e) => Err(e),
                    Ok(_) => if HolderAccount::unpacked(accounts[1].data@).wallet
                        != accounts[5].key {
                        Err(Failure::Custom(HypeError::InvalidFeeWallet))
                    } else if root.base_crncy_mint != accounts[3].key {
                        Err(Failure::Custom(HypeError::InvalidBaseCrncyMint))
                    } else if root.base_crncy_program_address != accounts[4].key {
                        Err(Failure::Custom(HypeError::InvalidBaseCrncyProgramAddress))
                    } else if destination != Some(accounts[6].key) {
                        Err(Failure::Custom(HypeError::InvalidAssociatedTokenAddress))
                    } else if authority is None || authority->Some_0.0 != accounts[8].key {
                        Err(Failure::Custom(HypeError::InvalidHypeAuthority))
                    } else {
                        Ok(
                            (
                                RootAccount { holder_fees: 0, ..root },
                                EffectsModel {
                                    actions: sweep_actions(
                                        accounts[0].key,
                                        accounts[5].key,
                                        accounts[3].key,
                                        accounts[7].key,
                                        accounts[4].key,
                                        accounts[6],
                                        authority->Some_0.0,
                                        authority->Some_0.1,
                                        root.holder_fees,
                                    ),
                                },
                            ),
                        )
                    },
                },
            },
        }
    }
}

/// Sweeps the holder's pool, given the program's authority and the address of the token
/// account of the holder's wallet.
pub fn withdraw_holder_funds_with(
    program_id: &Address,
    accounts: &[AccountView],
    host: &Host,
    authority: Option<(Address, u8)>,
    destination: Option<Address>,
) -> (r: Result<(RootAccount, Effects), Failure>)
    ensures
        agrees(r, holder_withdrawal(*program_id, accounts@, *host, authority, destination)),
{
    if accounts.len() < 9 {
        return Err(Failure::NotEnoughAccountKeys);
    }
    check_holder_account(&accounts[1], program_id, false)?;
    let root = load_root(program_id, &accounts[2])?;
    check_holder_admin(&accounts[0], &host.holder_admin)?;
    let holder = match HolderAccount::unpack(accounts[1].data.as_slice()) {
        Some(holder) => holder,
        None => {
            return Err(Failure::Custom(HypeError::InvalidHolderAccount));
        },
    };
    if !holder.wallet.equals(&accounts[5].key) {
        return Err(Failure::Custom(HypeError::InvalidFeeWallet));
    }
    if !root.base_crncy_mint.equals(&accounts[3].key) {
        return Err(Failure::Custom(HypeError::InvalidBaseCrncyMint));
    }
    if !root.base_crncy_program_address.equals(&accounts[4].key) {
        return Err(Failure::Custom(HypeError::InvalidBaseCrncyProgramAddress));
    }
    if !matches_address(&destination, &accounts[6].key) {
        return Err(Failure::Custom(HypeError::InvalidAssociatedTokenAddress));
    }
    let (hype_auth, bump) = match authority {
        Some(found) => found,
        None => {
            return Err(Failure::Custom(HypeError::InvalidHypeAuthority));
        },
    };
    if !hype_auth.equals(&accounts[8].key) {
        return Err(Failure::Custom(HypeError::InvalidHypeAuthority));
    }
    let actions = sweep(
        &accounts[0].key,
        &accounts[5].key,
        &accounts[3].key,
        &accounts[7].key,
        &accounts[4].key,
        &accounts[6],
        &hype_auth,
        bump,
        root.holder_fees,
    );
    let mut emptied = root;
    emptied.holder_fees = 0;
    Ok((emptied, Effects { actions }))
}

/// Sweeps the holder's pool: all fees collected for the holder under one root ledger go to
/// the holder's wallet and the pool is reset to zero.
pub fn withdraw_holder_funds(program_id: &Address, accounts: &[AccountView], host: &Host) -> (r:
    Result<(RootAccount, Effects), Failure>)
    ensures
        agrees(
            r,
            holder_withdrawal(
                *program_id,
                accounts@,
                *host,
                hype_authority(*program_id),
                fee_destination(accounts@, 5, 3, 7),
            ),
        ),
{
    let authority = derive_hype_authority(program_id);
    let destination = derive_fee_destination(accounts, 5, 3, 7);
    withdraw_holder_funds_with(program_id, accounts, host, authority, destination)
}

} // verus!
