//! Sweep of the operator's fee pool.

use crate::account::AccountView;
use crate::action::{agrees, Action, Effects, EffectsModel, Signer};
use crate::address::{
    associated_token_address, derive_hype_authority, get_associated_token_address, hype_authority,
    matches_address, Address,
};
use crate::constants::{SYSTEM_PROGRAM_ID, TOKEN_PROGRAM_ID};
use crate::error::{Failure, HypeError};
use crate::ledger::{load_root, owned_root};
use crate::state::root::RootAccount;
use vstd::prelude::*;

verus! {

/// The intents of a sweep of `amount` from the reserve `reserve` to the token account
/// `destination` of `wallet`: the destination is created first where it does not exist yet,
/// and nothing is transferred where the pool is empty.
pub open spec fn sweep_actions(
    funder: Address,
    wallet: Address,
    base_mint: Address,
    token_program: Address,
    reserve: Address,
    destination: AccountView,
    authority: Address,
    bump: u8,
    amount: u64,
) -> Seq<Action> {
    let create = if destination.owner.bytes == SYSTEM_PROGRAM_ID {
        seq![
            Action::CreateAssociatedAccount { funder, wallet, mint: base_mint, token_program },
        ]
    } else {
        Seq::empty()
    };
    let transfer = if amount > 0 {
        seq![
            Action::Transfer {
                token_program: Address { bytes: TOKEN_PROGRAM_ID },
                source: reserve,
                mint: base_mint,
                destination: destination.key,
                authority,
                amount,
                decimals: 0,
                checked: false,
                signer: Signer::Program { bump },
            },
        ]
    } else {
        Seq::empty()
    };
    create + transfer
}

/// The token account that the wallet at position `wallet` holds for the mint at position
/// `mint` under the token program at position `token_program`, where the accounts are there.
pub open spec fn fee_destination(
    accounts: Seq<AccountView>,
    wallet: int,
    mint: int,
    token_program: int,
) -> Option<Address> {
    if 0 <= wallet < accounts.len() && 0 <= mint < accounts.len() && 0 <= token_program
        < accounts.len() {
        associated_token_address(
            accounts[wallet].key,
            accounts[mint].key,
            accounts[token_program].key,
        )
    } else {
        None
    }
}

/// What the sweep of the operator's pool gives: the root ledger with an empty pool and the
/// transfer of all that the pool held, or the failure.
///
/// The accounts are the operator's admin, who must have signed, the root ledger, which the
/// program must own, the mint of the base currency, the reserve, the fee wallet, the fee
/// wallet's token account, the token program and the program's authority. The mint, the
/// reserve and the fee wallet must be those of the root ledger, and the receiving account
/// the one at `destination`, the fee wallet's token account for the base currency: the pool
/// leaves the ledger's own reserve and reaches the registered wallet, and no other.
pub open spec fn operator_withdrawal(
    program_id: Address,
    accounts: Seq<AccountView>,
    authority: Option<(Address, u8)>,
    destination: Option<Address>,
) -> Result<(RootAccount, EffectsModel), Failure> {
    if accounts.len() < 8 {
        Err(Failure::NotEnoughAccountKeys)
    } else if !accounts[0].is_signer {
        Err(Failure::Custom(HypeError::AdminSignatureRequired))
    } else {
        match owned_root(program_id, accounts[1]) {
            Err(e) => Err(e),
            Ok(root) => if root.admin != accounts[0].key {
                Err(Failure::Custom(HypeError::InvalidAdmin))
            } else if root.fee_wallet != accounts[4].key {
                Err(Failure::Custom(HypeError::InvalidFeeWallet))
            } else if root.base_crncy_mint != accounts[2].key {
                Err(Failure::Custom(HypeError::InvalidBaseCrncyMint))
            } else if root.base_crncy_program_address != accounts[3].key {
                Err(Failure::Custom(HypeError::InvalidBaseCrncyProgramAddress))
            } else if destination != Some(accounts[5].key) {
                Err(Failure::Custom(HypeError::InvalidAssociatedTokenAddress))
            } else if authority is None || authority->Some_0.0 != accounts[7].key {
                Err(Failure::Custom(HypeError::InvalidHypeAuthority))
            } else {
                Ok(
                    (
                        RootAccount { fees: 0, ..root },
                        EffectsModel {
                            actions: sweep_actions(
                                accounts[0].key,
                                accounts[4].key,
                                accounts[2].key,
                                accounts[6].key,
                                accounts[3].key,
                                accounts[5],
                                authority->Some_0.0,
                                authority->Some_0.1,
                                root.fees,
                            ),
                        },
                    ),
                )
            },
        }
    }
}

/// Builds the intents of a sweep.
pub fn sweep(
    funder: &Address,
    wallet: &Address,
    base_mint: &Address,
    token_program: &Address,
    reserve: &Address,
    destination: &AccountView,
    authority: &Address,
    bump: u8,
    amount: u64,
) -> (r: Vec<Action>)
    ensures
        r@ == sweep_actions(
            *funder,
            *wallet,
            *base_mint,
            *token_program,
            *reserve,
            *destination,
            *authority,
            bump,
            amount,
        ),
{
    let mut actions: Vec<Action> = Vec::new();
    if destination.owner.is_system_program() {
        actions.push(
            Action::CreateAssociatedAccount {
                funder: *funder,
                wallet: *wallet,
                mint: *base_mint,
                token_program: *token_program,
            },
        );
    }
    if amount > 0 {
        actions.push(
            Action::Transfer {
                token_program: Address { bytes: TOKEN_PROGRAM_ID },
                source: *reserve,
                mint: *base_mint,
                destination: destination.key,
                authority: *authority,
                amount,
                decimals: 0,
                checked: false,
                signer: Signer::Program { bump },
            },
        );
    }
    assert(actions@ =~= sweep_actions(
        *funder,
        *wallet,
        *base_mint,
        *token_program,
        *reserve,
        *destination,
        *authority,
        bump,
        amount,
    ));
    actions
}

/// Derives the token account that the wallet at position `wallet` holds for the mint at
/// position `mint` under the token program at position `token_program`.
pub fn derive_fee_destination(
    accounts: &[AccountView],
    wallet: usize,
    mint: usize,
    token_program: usize,
) -> (r: Option<Address>)
    ensures
        r == fee_destination(accounts@, wallet as int, mint as int, token_program as int),
{
    if wallet < accounts.len() && mint < accounts.len() && token_program < accounts.len() {
        get_associated_token_address(
            &accounts[wallet].key,
            &accounts[mint].key,
            &accounts[token_program].key,
        )
    } else {
        None
    }
}

/// Sweeps the operator's pool, given the program's authority and the address of the fee
/// wallet's token account.
pub fn withdraw_operator_funds_with(
    program_id: &Address,
    accounts: &[AccountView],
    authority: Option<(Address, u8)>,
    destination: Option<Address>,
) -> (r: Result<(RootAccount, Effects), Failure>)
    ensures
        agrees(r, operator_withdrawal(*program_id, accounts@, authority, destination)),
{
    if accounts.len() < 8 {
        return Err(Failure::NotEnoughAccountKeys);
    }
    if !accounts[0].is_signer {
        return Err(Failure::Custom(HypeError::AdminSignatureRequired));
    }
    let root = load_root(program_id, &accounts[1])?;
    if !root.admin.equals(&accounts[0].key) {
        return Err(Failure::Custom(HypeError::InvalidAdmin));
    }
    if !root.fee_wallet.equals(&accounts[4].key) {
        return Err(Failure::Custom(HypeError::InvalidFeeWallet));
    }
    if !root.base_crncy_mint.equals(&accounts[2].key) {
        return Err(Failure::Custom(HypeError::InvalidBaseCrncyMint));
    }
    if !root.base_crncy_program_address.equals(&accounts[3].key) {
        return Err(Failure::Custom(HypeError::InvalidBaseCrncyProgramAddress));
    }
    if !matches_address(&destination, &accounts[5].key) {
        return Err(Failure::Custom(HypeError::InvalidAssociatedTokenAddress));
    }
    let (hype_auth, bump) = match authority {
        Some(found) => found,
        None => {
            return Err(Failure::Custom(HypeError::InvalidHypeAuthority));
        },
    };
    if !hype_auth.equals(&accounts[7].key) {
        return Err(Failure::Custom(HypeError::InvalidHypeAuthority));
    }
    let actions = sweep(
        &accounts[0].key,
        &accounts[4].key,
        &accounts[2].key,
        &accounts[6].key,
        &accounts[3].key,
        &accounts[5],
        &hype_auth,
        bump,
        root.fees,
    );
    let mut emptied = root;
    emptied.fees = 0;
    Ok((emptied, Effects { actions }))
}

/// Sweeps the operator's pool: all fees collected for the operator go to the fee wallet and
/// the pool is reset to zero.
pub fn withdraw_operator_funds(program_id: &Address, accounts: &[AccountView]) -> (r: Result<
    (RootAccount, Effects),
    Failure,
>)
    ensures
        agrees(
            r,
            operator_withdrawal(
                *program_id,
                accounts@,
                hype_authority(*program_id),
                fee_destination(accounts@, 4, 2, 6),
            ),
        ),
{
    let authority = derive_hype_authority(program_id);
    let destination = derive_fee_destination(accounts, 4, 2, 6);
    withdraw_operator_funds_with(program_id, accounts, authority, destination)
}

} // verus!
