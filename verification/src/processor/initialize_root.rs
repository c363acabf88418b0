//! Bootstrap of an operator's root ledger.

use crate::account::{AccountView, Host};
use crate::action::{agrees, Action, Effects, EffectsModel, Signer};
use crate::address::{
    derive_entry, derive_hype_authority, derived, entry_seeds, get_seed_by_tag, hype_authority,
    new_account_check, seed_by_tag, verify_new, Address,
};
use crate::bytes::{bytes_32, read_32, read_u32, read_u64, u32_at, u64_at};
use crate::constants::{
    NO_VERSION, ROOT_ACCOUNT_SIZE, ROOT_TAG, SYSTEM_PROGRAM_ID, TOKEN_2022_PROGRAM_ID,
    TOKEN_HOLDING_SIZE, TOKEN_PROGRAM_ID,
};
use crate::error::{Failure, HypeError};
use crate::ledger::{
    check_holder_account, find_operator, holder_account_check, operator_position, operator_record,
};
use crate::rent::{rent_exempt_minimum, rent_minimum};
use crate::state::root::RootAccount;
use vstd::prelude::*;

verus! {

/// Ten to the power `n`.
pub open spec fn pow10(n: nat) -> nat
    decreases n,
{
    if n == 0 {
        1
    } else {
        10 * pow10((n - 1) as nat)
    }
}

/// Computes the number of smallest units in a whole unit of a currency with `decimals`
/// decimal places, where that fits 32 bits.
pub fn decimals_factor(decimals: u8) -> (r: Option<u32>)
    ensures
        r == if decimals <= 9 {
            Some(pow10(decimals as nat) as u32)
        } else {
            None
        },
        decimals <= 9 ==> pow10(decimals as nat) <= 1_000_000_000,
{
    if decimals > 9 {
        return None;
    }
    let mut factor: u32 = 1;
    let mut i: u8 = 0;
    while i < decimals
        invariant
            i <= decimals <= 9,
            factor == pow10(i as nat),
            factor <= 1_000_000_000,
            (i < 9 ==> factor <= 100_000_000),
        decreases decimals - i,
    {
        assert(pow10((i + 1) as nat) == 10 * pow10(i as nat));
        assert(i < 9 ==> factor <= 100_000_000);
        proof {
            lemma_pow10_bound(i as nat);
        }
        factor = factor * 10;
        i = i + 1;
        proof {
            lemma_pow10_bound(i as nat);
        }
    }
    Some(factor)
}

proof fn lemma_pow10_bound(n: nat)
    requires
        n <= 9,
    ensures
        pow10(n) <= 1_000_000_000,
        n < 9 ==> pow10(n) <= 100_000_000,
{
    reveal_with_fuel(pow10, 11);
    assert(pow10(0) == 1);
    assert(pow10(1) == 10);
    assert(pow10(2) == 100);
    assert(pow10(3) == 1_000);
    assert(pow10(4) == 10_000);
    assert(pow10(5) == 100_000);
    assert(pow10(6) == 1_000_000);
    assert(pow10(7) == 10_000_000);
    assert(pow10(8) == 100_000_000);
    assert(pow10(9) == 1_000_000_000);
}

/// The derivation against which the new root ledger is checked: the entry of the version in
/// `data` with the tag of a root ledger, under the program's authority.
pub open spec fn root_entry(program_id: Address, data: Seq<u8>) -> Option<(Address, u8)> {
    if data.len() >= 8 && hype_authority(program_id) is Some {
        derived(
            entry_seeds(
                seed_by_tag(u32_at(data, 4), ROOT_TAG),
                hype_authority(program_id)->Some_0.0,
            ),
            program_id,
        )
    } else {
        None
    }
}

/// The root ledger that the bootstrap writes.
pub open spec fn new_root(
    accounts: Seq<AccountView>,
    data: Seq<u8>,
    host: Host,
    max_networks_count: u32,
    operator_name: [u8; 32],
) -> RootAccount {
    RootAccount {
        tag: ROOT_TAG,
        version: u32_at(data, 4),
        admin: accounts[0].key,
        fee_wallet: accounts[5].key,
        base_crncy_mint: accounts[3].key,
        base_crncy_program_address: accounts[4].key,
        clients_count: 0,
        tokens_count: 0,
        fees: 0,
        networks_count: 0,
        base_crncy_decs_factor: pow10(accounts[3].data@[44] as nat) as u32,
        slot: host.clock.slot,
        time: host.clock.time,
        decimals: accounts[3].data@[44] as u32,
        supply: 0,
        tvl: 0,
        counter: 0,
        all_time_base_crncy_volume: 0,
        all_time_tokens_volume: 0,
        holder_fees: 0,
        init_price: u64_at(data, 16),
        max_supply: u64_at(data, 24),
        fee_ratio: u64_at(data, 8),
        fee_rate: u64_at(data, 32),
        creation_fee: u64_at(data, 40),
        max_networks_count,
        creation_time: host.clock.time,
        min_fee: u64_at(data, 48),
        operator_name,
        ref_duration: u32_at(data, 92),
        mask: u32_at(data, 88),
        ref_discount: u64_at(data, 96),
        ref_ratio: u64_at(data, 104),
        url_prefix: bytes_32(data.subrange(56, 88)),
    }
}

/// The intents of the bootstrap: the reserve account is created and initialized as a holding
/// of the base currency that belongs to the program's authority, then the root ledger's
/// account is created.
pub open spec fn root_actions(
    program_id: Address,
    accounts: Seq<AccountView>,
    version: u32,
    authority: (Address, u8),
    root_bump: u8,
) -> Seq<Action> {
    seq![
        Action::CreateAccount {
            payer: accounts[0].key,
            account: accounts[4].key,
            lamports: rent_minimum(TOKEN_HOLDING_SIZE as nat) as u64,
            space: TOKEN_HOLDING_SIZE as u64,
            owner: accounts[7].key,
            signer: Signer::Wallet,
        },
        Action::InitializeHolding {
            token_program: accounts[7].key,
            account: accounts[4].key,
            mint: accounts[3].key,
            owner: authority.0,
            signer: Signer::Program { bump: authority.1 },
        },
        Action::CreateAccount {
            payer: accounts[0].key,
            account: accounts[2].key,
            lamports: rent_minimum(ROOT_ACCOUNT_SIZE as nat) as u64,
            space: ROOT_ACCOUNT_SIZE as u64,
            owner: program_id,
            signer: Signer::Tagged { version, tag: ROOT_TAG, base: authority.0, bump: root_bump },
        },
    ]
}

/// What the bootstrap gives: the new root ledger and the intents that create its accounts, or
/// the failure.
///
/// The accounts are the operator's authority, the holder registry, the root ledger to be, the
/// mint of the base currency, the reserve to be, the fee wallet, the program's authority, the
/// token program and the system program. The version in `data` must be registered for the
/// authority that asks, and that authority must have signed; the root ledger's address is
/// derived from the version, so that no version has two root ledgers.
pub open spec fn root_initialization(
    program_id: Address,
    accounts: Seq<AccountView>,
    data: Seq<u8>,
    host: Host,
    authority: Option<(Address, u8)>,
    entry: Option<(Address, u8)>,
) -> Result<(RootAccount, EffectsModel), Failure> {
    if accounts.len() < 9 {
        Err(Failure::NotEnoughAccountKeys)
    } else if authority is None || authority->Some_0.0 != accounts[6].key {
        Err(Failure::Custom(HypeError::InvalidHypeAuthority))
    } else if accounts[7].key.bytes != TOKEN_PROGRAM_ID && accounts[7].key.bytes
        != TOKEN_2022_PROGRAM_ID {
        Err(Failure::Custom(HypeError::InvalidTokenProgramId))
    } else if accounts[8].key.bytes != SYSTEM_PROGRAM_ID {
        Err(Failure::Custom(HypeError::InvalidSystemProgramId))
    } else {
        match holder_account_check(accounts[1], program_id, false) {
            Err(e) => Err(e),
            Ok(_) => if data.len() < 112 {
                Err(Failure::Custom(HypeError::InvalidDataLength))
            } else if !accounts[0].is_signer {
                Err(Failure::Custom(HypeError::AdminSignatureRequired))
            } else {
                let version = u32_at(data, 4);
                match operator_position(accounts[1].data@, version) {
                    None => Err(Failure::Custom(HypeError::InvalidNewOperatorAccount)),
                    Some(i) => {
                        let operator = operator_record(accounts[1].data@, i);
                        if operator.operator_address != accounts[0].key || version == NO_VERSION {
                            Err(Failure::Custom(HypeError::InvalidNewOperatorAccount))
                        } else {
                            match new_account_check(accounts[2], entry) {
                                Err(e) => Err(e),
                                Ok(root_bump) => if accounts[3].data@.len() < 45 {
                                    Err(Failure::Custom(HypeError::InvalidBaseCrncyMint))
                                } else if accounts[3].data@[44] > 9 {
                                    Err(Failure::Custom(HypeError::ArithmeticOverflow))
                                } else {
                                    Ok(
                                        (
                                            new_root(
                                                accounts,
                                                data,
                                                host,
                                                operator.max_networks_count,
                                                operator.operator_name,
                                            ),
                                            EffectsModel {
                                                actions: root_actions(
                                                    program_id,
                                                    accounts,
                                                    version,
                                                    authority->Some_0,
                                                    root_bump,
                                                ),
                                            },
                                        ),
                                    )
                                },
                            }
                        }
                    },
                }
            },
        }
    }
}

/// Bootstraps a root ledger, given the program's authority and the derivation of the ledger's
/// address.
pub fn initialize_root_with(
    program_id: &Address,
    accounts: &[AccountView],
    data: &[u8],
    host: &Host,
    authority: Option<(Address, u8)>,
    entry: Option<(Address, u8)>,
) -> (r: Result<(RootAccount, Effects), Failure>)
    ensures
        agrees(r, root_initialization(*program_id, accounts@, data@, *host, authority, entry)),
{
    if accounts.len() < 9 {
        return Err(Failure::NotEnoughAccountKeys);
    }
    let (hype_auth, bump) = match authority {
        Some(found) => found,
        None => {
            return Err(Failure::Custom(HypeError::InvalidHypeAuthority));
        },
    };
    if !hype_auth.equals(&accounts[6].key) {
        return Err(Failure::Custom(HypeError::InvalidHypeAuthority));
    }
    let old_token = accounts[7].key.equals(&Address { bytes: TOKEN_PROGRAM_ID });
    let token_2022 = accounts[7].key.equals(&Address { bytes: TOKEN_2022_PROGRAM_ID });
    if !old_token && !token_2022 {
        return Err(Failure::Custom(HypeError::InvalidTokenProgramId));
    }
    if !accounts[8].key.is_system_program() {
        return Err(Failure::Custom(HypeError::InvalidSystemProgramId));
    }
    check_holder_account(&accounts[1], program_id, false)?;
    if data.len() < 112 {
        return Err(Failure::Custom(HypeError::InvalidDataLength));
    }
    if !accounts[0].is_signer {
        return Err(Failure::Custom(HypeError::AdminSignatureRequired));
    }
    let version = read_u32(data, 4);
    let operator = match find_operator(accounts[1].data.as_slice(), version) {
        Some((_, operator)) => operator,
        None => {
            return Err(Failure::Custom(HypeError::InvalidNewOperatorAccount));
        },
    };
    if !operator.operator_address.equals(&accounts[0].key) || version == NO_VERSION {
        return Err(Failure::Custom(HypeError::InvalidNewOperatorAccount));
    }
    let root_bump = verify_new(&accounts[2], entry)?;
    let mint_data = accounts[3].data.as_slice();
    if mint_data.len() < 45 {
        return Err(Failure::Custom(HypeError::InvalidBaseCrncyMint));
    }
    let decimals: u8 = mint_data[44];
    let factor = match decimals_factor(decimals) {
        Some(factor) => factor,
        None => {
            return Err(Failure::Custom(HypeError::ArithmeticOverflow));
        },
    };
    let holding_rent = match rent_exempt_minimum(TOKEN_HOLDING_SIZE) {
        Some(v) => v,
        None => {
            return Err(Failure::InvalidRealloc);
        },
    };
    let root_rent = match rent_exempt_minimum(ROOT_ACCOUNT_SIZE) {
        Some(v) => v,
        None => {
            return Err(Failure::InvalidRealloc);
        },
    };
    let root = RootAccount {
        tag: ROOT_TAG,
        version,
        admin: accounts[0].key,
        fee_wallet: accounts[5].key,
        base_crncy_mint: accounts[3].key,
        base_crncy_program_address: accounts[4].key,
        clients_count: 0,
        tokens_count: 0,
        fees: 0,
        networks_count: 0,
        base_crncy_decs_factor: factor,
        slot: host.clock.slot,
        time: host.clock.time,
        decimals: decimals as u32,
        supply: 0,
        tvl: 0,
        counter: 0,
        all_time_base_crncy_volume: 0,
        all_time_tokens_volume: 0,
        holder_fees: 0,
        init_price: read_u64(data, 16),
        max_supply: read_u64(data, 24),
        fee_ratio: read_u64(data, 8),
        fee_rate: read_u64(data, 32),
        creation_fee: read_u64(data, 40),
        max_networks_count: operator.max_networks_count,
        creation_time: host.clock.time,
        min_fee: read_u64(data, 48),
        operator_name: operator.operator_name,
        ref_duration: read_u32(data, 92),
        mask: read_u32(data, 88),
        ref_discount: read_u64(data, 96),
        ref_ratio: read_u64(data, 104),
        url_prefix: read_32(data, 56),
    };
    let mut actions: Vec<Action> = Vec::new();
    actions.push(
        Action::CreateAccount {
            payer: accounts[0].key,
            account: accounts[4].key,
            lamports: holding_rent,
            space: TOKEN_HOLDING_SIZE as u64,
            owner: accounts[7].key,
            signer: Signer::Wallet,
        },
    );
    actions.push(
        Action::InitializeHolding {
            token_program: accounts[7].key,
            account: accounts[4].key,
            mint: accounts[3].key,
            owner: hype_auth,
            signer: Signer::Program { bump },
        },
    );
    actions.push(
        Action::CreateAccount {
            payer: accounts[0].key,
            account: accounts[2].key,
            lamports: root_rent,
            space: ROOT_ACCOUNT_SIZE as u64,
            owner: *program_id,
            signer: Signer::Tagged { version, tag: ROOT_TAG, base: hype_auth, bump: root_bump },
        },
    );
    proof {
        let model = root_initialization(*program_id, accounts@, data@, *host, authority, entry);
        assert(model is Ok);
        assert(actions@ =~= model->Ok_0.1.actions);
    }
    Ok((root, Effects { actions }))
}

/// Bootstraps a root ledger: the authority registered for an operator's version creates the
/// one root ledger of that version and fixes its base currency, fee schedule and fee wallet.
pub fn initialize_root(program_id: &Address, accounts: &[AccountView], data: &[u8], host: &Host) -> (r:
    Result<(RootAccount, Effects), Failure>)
    ensures
        agrees(
            r,
            root_initialization(
                *program_id,
                accounts@,
                data@,
                *host,
                hype_authority(*program_id),
                root_entry(*program_id, data@),
            ),
        ),
{
    let authority = derive_hype_authority(program_id);
    let mut entry: Option<(Address, u8)> = None;
    if data.len() >= 8 {
        if let Some((hype_auth, _)) = authority {
            let seed = get_seed_by_tag(read_u32(data, 4), ROOT_TAG);
            entry = derive_entry(seed.as_slice(), &hype_auth, program_id);
        }
    }
    initialize_root_with(program_id, accounts, data, host, authority, entry)
}

} // verus!
