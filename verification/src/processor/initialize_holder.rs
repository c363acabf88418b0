//! Bootstrap of the holder registry.

use crate::account::{AccountView, Host};
use crate::action::{agrees, cut_seed, seed_prefix, Action, Effects, EffectsModel, Signer};
use crate::address::{create, created, Address};
use crate::bytes::{bytes_8, read_8, rows};
use crate::constants::{HOLDER_ACCOUNT_SIZE, HOLDER_TAG, NO_VERSION, SYSTEM_PROGRAM_ID};
use crate::error::{Failure, HypeError};
use crate::ledger::{check_holder_admin, holder_admin_check};
use crate::rent::{rent_exempt_minimum, rent_minimum};
use crate::state::holder::HolderAccount;
use vstd::prelude::*;

verus! {

/// The seeds of the holder registry: the bytes of `data` from offset 1 up to its first zero
/// byte or to offset 9, the admin's address, and the bump seed at offset 9.
pub open spec fn holder_seeds(data: Seq<u8>, admin: Address) -> Seq<Seq<u8>> {
    seq![seed_prefix(data.subrange(1, 9)), admin.bytes@, seq![data[9]]]
}

/// The address at which the holder registry must lie.
pub open spec fn holder_address(program_id: Address, accounts: Seq<AccountView>, data: Seq<u8>) -> Result<
    Address,
    Failure,
> {
    if accounts.len() == 4 && data.len() == 10 {
        created(holder_seeds(data, accounts[0].key), program_id)
    } else {
        Err(Failure::InvalidSeeds)
    }
}

/// What the bootstrap gives: the empty registry and the intent that creates its account, or
/// the failure.
///
/// The accounts are the holder's admin, the registry to be, the wallet for the holder's fees
/// and the system program. The admin must hold at least the rent of the registry.
pub open spec fn holder_initialization(
    program_id: Address,
    accounts: Seq<AccountView>,
    data: Seq<u8>,
    host: Host,
    expected: Result<Address, Failure>,
) -> Result<(HolderAccount, EffectsModel), Failure> {
    if accounts.len() != 4 {
        Err(Failure::Custom(HypeError::InvalidAccountsNumber))
    } else if data.len() != 10 {
        Err(Failure::Custom(HypeError::InvalidDataLength))
    } else {
        match holder_admin_check(accounts[0], host.holder_admin) {
            Err(e) => Err(e),
            Ok(_) => if accounts[3].key.bytes != SYSTEM_PROGRAM_ID {
                Err(Failure::Custom(HypeError::InvalidSystemProgramId))
            } else if accounts[0].lamports < rent_minimum(HOLDER_ACCOUNT_SIZE as nat) {
                Err(Failure::Custom(HypeError::InsufficientFunds))
            } else {
                match expected {
                    Err(e) => Err(e),
                    Ok(address) => if accounts[1].key != address {
                        Err(Failure::Custom(HypeError::InvalidNewAccountPDA))
                    } else {
                        Ok(
                            (
                                HolderAccount {
                                    tag: HOLDER_TAG,
                                    version: NO_VERSION,
                                    wallet: accounts[2].key,
                                    slot: host.clock.slot,
                                    time: host.clock.time,
                                    operators_count: 0,
                                },
                                EffectsModel {
                                    actions: seq![
                                        Action::CreateAccount {
                                            payer: accounts[0].key,
                                            account: accounts[1].key,
                                            lamports: rent_minimum(
                                                HOLDER_ACCOUNT_SIZE as nat,
                                            ) as u64,
                                            space: HOLDER_ACCOUNT_SIZE as u64,
                                            owner: program_id,
                                            signer: Signer::Holder {
                                                seed: bytes_8(data.subrange(1, 9)),
                                                admin: accounts[0].key,
                                                bump: data[9],
                                            },
                                        },
                                    ],
                                },
                            ),
                        )
                    },
                }
            },
        }
    }
}

/// Bootstraps the holder registry, given the address at which it must lie.
pub fn initialize_holder_with(
    program_id: &Address,
    accounts: &[AccountView],
    data: &[u8],
    host: &Host,
    expected: Result<Address, Failure>,
) -> (r: Result<(HolderAccount, Effects), Failure>)
    ensures
        agrees(r, holder_initialization(*program_id, accounts@, data@, *host, expected)),
{
    if accounts.len() != 4 {
        return Err(Failure::Custom(HypeError::InvalidAccountsNumber));
    }
    if data.len() != 10 {
        return Err(Failure::Custom(HypeError::InvalidDataLength));
    }
    check_holder_admin(&accounts[0], &host.holder_admin)?;
    if !accounts[3].key.is_system_program() {
        return Err(Failure::Custom(HypeError::InvalidSystemProgramId));
    }
    let lamports = match rent_exempt_minimum(HOLDER_ACCOUNT_SIZE) {
        Some(lamports) => lamports,
        None => {
            return Err(Failure::InvalidRealloc);
        },
    };
    if accounts[0].lamports < lamports {
        return Err(Failure::Custom(HypeError::InsufficientFunds));
    }
    let address = expected?;
    if !accounts[1].key.equals(&address) {
        return Err(Failure::Custom(HypeError::InvalidNewAccountPDA));
    }
    let holder = HolderAccount {
        tag: HOLDER_TAG,
        version: NO_VERSION,
        wallet: accounts[2].key,
        slot: host.clock.slot,
        time: host.clock.time,
        operators_count: 0,
    };
    let mut actions: Vec<Action> = Vec::new();
    actions.push(
        Action::CreateAccount {
            payer: accounts[0].key,
            account: accounts[1].key,
            lamports,
            space: HOLDER_ACCOUNT_SIZE as u64,
            owner: *program_id,
            signer: Signer::Holder { seed: read_8(data, 1), admin: accounts[0].key, bump: data[9] },
        },
    );
    proof {
        let model = holder_initialization(*program_id, accounts@, data@, *host, expected);
        assert(model is Ok);
        assert(actions@ =~= model->Ok_0.1.actions);
    }
    Ok((holder, Effects { actions }))
}

/// Bootstraps the holder registry: the holder's admin creates the one registry of the
/// deployment at an address derived from a seed of its choice.
pub fn initialize_holder(program_id: &Address, accounts: &[AccountView], data: &[u8], host: &Host) -> (r:
    Result<(HolderAccount, Effects), Failure>)
    ensures
        agrees(
            r,
            holder_initialization(
                *program_id,
                accounts@,
                data@,
                *host,
                holder_address(*program_id, accounts@, data@),
            ),
        ),
{
    let mut expected: Result<Address, Failure> = Err(Failure::InvalidSeeds);
    if accounts.len() == 4 && data.len() == 10 {
        let mut seeds: Vec<Vec<u8>> = Vec::new();
        seeds.push(cut_seed(vstd::slice::slice_subrange(data, 1, 9)));
        seeds.push(accounts[0].key.to_vec());
        let mut bump: Vec<u8> = Vec::new();
        bump.push(data[9]);
        seeds.push(bump);
        assert(rows(&seeds) =~= holder_seeds(data@, accounts[0].key));
        expected = create(&seeds, program_id);
    }
    initialize_holder_with(program_id, accounts, data, host, expected)
}

} // verus!
