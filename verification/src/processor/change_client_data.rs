//! Change of a client's display name.

use crate::account::{AccountView, Host};
use crate::address::Address;
use crate::bytes::{bytes_32, lemma_bytes_32_content, read_32};
use crate::constants::{CLIENT_ACCOUNT_SIZE, CLIENT_TAG};
use crate::error::{Failure, HypeError};
use crate::state::client::ClientAccount;
use vstd::prelude::*;

verus! {

/// The client account that `account` holds for the wallet `wallet`, where this program owns
/// the account and it carries the tag of a client account.
pub open spec fn owned_client(program_id: Address, account: AccountView, wallet: Address) -> Result<
    ClientAccount,
    Failure,
> {
    if account.owner != program_id || account.data@.len() < CLIENT_ACCOUNT_SIZE
        || ClientAccount::unpacked(account.data@).tag != CLIENT_TAG || ClientAccount::unpacked(
        account.data@,
    ).wallet != wallet {
        Err(Failure::Custom(HypeError::InvalidClientAccount))
    } else {
        Ok(ClientAccount::unpacked(account.data@))
    }
}

/// What the change gives: the client account with the 32 bytes at offset 8 of `data` as its
/// nickname, or the failure. The accounts are the wallet, which must have signed, and its
/// client account.
pub open spec fn client_change(
    program_id: Address,
    accounts: Seq<AccountView>,
    data: Seq<u8>,
    host: Host,
) -> Result<ClientAccount, Failure> {
    if accounts.len() < 2 {
        Err(Failure::NotEnoughAccountKeys)
    } else if !accounts[0].is_signer {
        Err(Failure::Custom(HypeError::InvalidClientAccount))
    } else {
        match owned_client(program_id, accounts[1], accounts[0].key) {
            Err(e) => Err(e),
            Ok(client) => if data.len() < 40 {
                Err(Failure::Custom(HypeError::InvalidDataLength))
            } else {
                Ok(
                    ClientAccount {
                        nickname: bytes_32(data.subrange(8, 40)),
                        slot: host.clock.slot,
                        time: host.clock.time,
                        ..client
                    },
                )
            },
        }
    }
}

/// A change of the nickname changes nothing else but the time of the last change: the
/// referral binding and the totals of the client are what they were.
pub proof fn nickname_change_keeps_the_rest(
    program_id: Address,
    accounts: Seq<AccountView>,
    data: Seq<u8>,
    host: Host,
)
    requires
        client_change(program_id, accounts, data, host) is Ok,
    ensures
        ({
            let changed = client_change(program_id, accounts, data, host)->Ok_0;
            let before = ClientAccount::unpacked(accounts[1].data@);
            &&& changed.nickname@ == data.subrange(8, 40)
            &&& before == ClientAccount {
                nickname: before.nickname,
                slot: before.slot,
                time: before.time,
                ..changed
            }
        }),
{
    lemma_bytes_32_content(data.subrange(8, 40));
}

/// Reads the client account of `wallet`.
pub fn load_client(program_id: &Address, account: &AccountView, wallet: &Address) -> (r: Result<
    ClientAccount,
    Failure,
>)
    ensures
        r == owned_client(*program_id, *account, *wallet),
{
    if !account.owner.equals(program_id) {
        return Err(Failure::Custom(HypeError::InvalidClientAccount));
    }
    match ClientAccount::unpack(account.data.as_slice()) {
        Some(client) => if client.tag != CLIENT_TAG || !client.wallet.equals(wallet) {
            Err(Failure::Custom(HypeError::InvalidClientAccount))
        } else {
            Ok(client)
        },
        None => Err(Failure::Custom(HypeError::InvalidClientAccount)),
    }
}

/// Changes the display name of a client. Only the wallet that owns the account is accepted.
pub fn change_client_data(program_id: &Address, accounts: &[AccountView], data: &[u8], host: &Host) -> (r:
    Result<ClientAccount, Failure>)
    ensures
        r == client_change(*program_id, accounts@, data@, *host),
{
    if accounts.len() < 2 {
        return Err(Failure::NotEnoughAccountKeys);
    }
    if !accounts[0].is_signer {
        return Err(Failure::Custom(HypeError::InvalidClientAccount));
    }
    let client = load_client(program_id, &accounts[1], &accounts[0].key)?;
    if data.len() < 40 {
        return Err(Failure::Custom(HypeError::InvalidDataLength));
    }
    let mut changed = client;
    changed.nickname = read_32(data, 8);
    changed.slot = host.clock.slot;
    changed.time = host.clock.time;
    Ok(changed)
}

} // verus!
