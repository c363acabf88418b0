//! Validation of a listed token by the validator of its network.

use crate::account::{AccountView, Host};
use crate::address::{
    derive_entry, derive_hype_authority, derived, entry_seeds, existing_account_check,
    get_token_seed_bytes, hype_authority, token_seed, verify_existing, Address,
};
use crate::constants::{NOT_VERIFIED, ROOT_ACCOUNT_SIZE, TOKEN_ACCOUNT_SIZE, VERIFIED};
use crate::error::{Failure, HypeError};
use crate::ledger::{load_root, network_record, owned_root, read_network};
use crate::state::root::RootAccount;
use crate::state::token::TokenAccount;
use vstd::prelude::*;

verus! {

/// The status that a validation gives a token: "verify" confirms a token that is not yet
/// verified and is refused on one that is; "unverify" rejects it from any status.
pub open spec fn next_status(status: u64, verify: bool) -> Result<u64, HypeError> {
    if verify {
        if status == VERIFIED {
            Err(HypeError::TokenAlreadyVerified)
        } else {
            Ok(VERIFIED)
        }
    } else {
        Ok(NOT_VERIFIED)
    }
}

/// Computes the status that a validation gives a token.
pub fn decide_status(status: u64, verify: bool) -> (r: Result<u64, HypeError>)
    ensures
        r == next_status(status, verify),
{
    if verify {
        if status == VERIFIED {
            Err(HypeError::TokenAlreadyVerified)
        } else {
            Ok(VERIFIED)
        }
    } else {
        Ok(NOT_VERIFIED)
    }
}

/// "Verify" twice in a row fails the second time; "verify" and then "unverify" both succeed,
/// and each changes the status.
pub proof fn verify_is_not_repeated(status: u64)
    requires
        status != VERIFIED,
    ensures
        next_status(status, true) is Ok,
        next_status(status, true)->Ok_0 == VERIFIED,
        next_status(status, true)->Ok_0 != status,
        next_status(next_status(status, true)->Ok_0, true) is Err,
        next_status(next_status(status, true)->Ok_0, true)->Err_0
            == HypeError::TokenAlreadyVerified,
        next_status(next_status(status, true)->Ok_0, false) is Ok,
        next_status(next_status(status, true)->Ok_0, false)->Ok_0 == NOT_VERIFIED,
        next_status(next_status(status, true)->Ok_0, false)->Ok_0 != next_status(
            status,
            true,
        )->Ok_0,
{
}

/// The derivation against which the token record of a validation is checked.
pub open spec fn validated_token_entry(program_id: Address, accounts: Seq<AccountView>) -> Option<
    (Address, u8),
> {
    if accounts.len() >= 3 && accounts[1].data@.len() >= ROOT_ACCOUNT_SIZE
        && accounts[2].data@.len() >= TOKEN_ACCOUNT_SIZE && hype_authority(program_id) is Some {
        let root = RootAccount::unpacked(accounts[1].data@);
        let token = TokenAccount::unpacked(accounts[2].data@);
        derived(
            entry_seeds(
                token_seed(root.version, token.network, token.address@),
                hype_authority(program_id)->Some_0.0,
            ),
            program_id,
        )
    } else {
        None
    }
}

/// What a validation gives: the token record with its new status, or the failure.
///
/// The accounts are the validator, the root ledger and the token record. The token record
/// must belong to this program and lie at the address derived from its network and external
/// address. The validator must be the one registered for the token's network and must have
/// signed. The second byte of
/// `data` is one for "verify" and anything else for "unverify".
pub open spec fn status_change(
    program_id: Address,
    accounts: Seq<AccountView>,
    data: Seq<u8>,
    host: Host,
    authority: Option<(Address, u8)>,
    token_entry: Option<(Address, u8)>,
) -> Result<TokenAccount, Failure> {
    if accounts.len() < 3 {
        Err(Failure::NotEnoughAccountKeys)
    } else {
        match owned_root(program_id, accounts[1]) {
            Err(e) => Err(e),
            Ok(root) => if authority is None {
                Err(Failure::Custom(HypeError::InvalidHypeAuthority))
            } else if accounts[2].owner != program_id || accounts[2].data@.len()
                < TOKEN_ACCOUNT_SIZE {
                Err(Failure::Custom(HypeError::InvalidTokenAccount))
            } else {
                let token = TokenAccount::unpacked(accounts[2].data@);
                match existing_account_check(accounts[2].key, token_entry) {
                    Err(e) => Err(e),
                    Ok(_) => match network_record(accounts[1].data@, token.network) {
                        None => Err(Failure::Custom(HypeError::InvalidNetworkId)),
                        Some(network) => if network.validator != accounts[0].key
                            || !accounts[0].is_signer {
                            Err(Failure::Custom(HypeError::InvalidValidator))
                        } else if data.len() < 2 {
                            Err(Failure::Custom(HypeError::InvalidDataLength))
                        } else {
                            match next_status(token.status, data[1] == 1) {
                                Err(e) => Err(Failure::Custom(e)),
                                Ok(status) => Ok(
                                    TokenAccount {
                                        status,
                                        slot: host.clock.slot,
                                        time: host.clock.time,
                                        ..token
                                    },
                                ),
                            }
                        },
                    },
                }
            },
        }
    }
}

/// Validates a token, given the program's authority and the derivation of the token record.
pub fn change_token_status_with(
    program_id: &Address,
    accounts: &[AccountView],
    data: &[u8],
    host: &Host,
    authority: Option<(Address, u8)>,
    token_entry: Option<(Address, u8)>,
) -> (r: Result<TokenAccount, Failure>)
    ensures
        r == status_change(*program_id, accounts@, data@, *host, authority, token_entry),
{
    if accounts.len() < 3 {
        return Err(Failure::NotEnoughAccountKeys);
    }
    let signer = &accounts[0];
    let root_acc = &accounts[1];
    let token_acc = &accounts[2];
    let _root = load_root(program_id, root_acc)?;
    if authority.is_none() {
        return Err(Failure::Custom(HypeError::InvalidHypeAuthority));
    }
    if !token_acc.owner.equals(program_id) {
        return Err(Failure::Custom(HypeError::InvalidTokenAccount));
    }
    let token = match TokenAccount::unpack(token_acc.data.as_slice()) {
        Some(token) => token,
        None => {
            return Err(Failure::Custom(HypeError::InvalidTokenAccount));
        },
    };
    let _bump = verify_existing(&token_acc.key, token_entry)?;
    let network = match read_network(root_acc.data.as_slice(), token.network) {
        Some(network) => network,
        None => {
            return Err(Failure::Custom(HypeError::InvalidNetworkId));
        },
    };
    if !network.validator.equals(&signer.key) || !signer.is_signer {
        return Err(Failure::Custom(HypeError::InvalidValidator));
    }
    if data.len() < 2 {
        return Err(Failure::Custom(HypeError::InvalidDataLength));
    }
    let status = match decide_status(token.status, data[1] == 1) {
        Ok(status) => status,
        Err(e) => {
            return Err(Failure::Custom(e));
        },
    };
    let mut changed = token;
    changed.status = status;
    changed.slot = host.clock.slot;
    changed.time = host.clock.time;
    Ok(changed)
}

/// Validates a token: the validator of the token's network confirms or rejects it.
pub fn change_token_status(program_id: &Address, accounts: &[AccountView], data: &[u8], host: &Host) -> (r:
    Result<TokenAccount, Failure>)
    ensures
        r == status_change(
            *program_id,
            accounts@,
            data@,
            *host,
            hype_authority(*program_id),
            validated_token_entry(*program_id, accounts@),
        ),
{
    let authority = derive_hype_authority(program_id);
    let mut token_entry: Option<(Address, u8)> = None;
    if accounts.len() >= 3 {
        if let Some((hype_auth, _)) = authority {
            let root = RootAccount::unpack(accounts[1].data.as_slice());
            let token = TokenAccount::unpack(accounts[2].data.as_slice());
            if let (Some(root), Some(token)) = (root, token) {
                let seed = get_token_seed_bytes(root.version, token.network, token.address.as_slice());
                token_entry = derive_entry(seed.as_slice(), &hype_auth, program_id);
            }
        }
    }
    change_token_status_with(program_id, accounts, data, host, authority, token_entry)
}

} // verus!
