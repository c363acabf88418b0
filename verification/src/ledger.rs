//! Reading the protocol's entries out of the accounts that hold them.

use crate::account::AccountView;
use crate::address::Address;
use crate::bytes::read_u32;
use crate::constants::{
    HOLDER_ACCOUNT_SIZE, HOLDER_TAG, NETWORK_RECORD_SIZE, OPERATOR_RECORD_SIZE, ROOT_ACCOUNT_SIZE,
    ROOT_TAG,
};
use crate::error::{Failure, HypeError};
use crate::state::holder::{HolderAccount, OperatorRecord};
use crate::state::root::{NetworkRecord, RootAccount};
use vstd::prelude::*;
use vstd::slice::slice_subrange;

verus! {

/// The root ledger that `data` holds, where its type tag is the one of a root ledger.
pub open spec fn tagged_root(data: Seq<u8>) -> Result<RootAccount, Failure> {
    if data.len() < ROOT_ACCOUNT_SIZE || RootAccount::unpacked(data).tag != ROOT_TAG {
        Err(Failure::Custom(HypeError::InvalidAccountTag))
    } else {
        Ok(RootAccount::unpacked(data))
    }
}

/// The root ledger that `account` holds, where this program owns the account.
pub open spec fn owned_root(program_id: Address, account: AccountView) -> Result<
    RootAccount,
    Failure,
> {
    if account.owner != program_id {
        Err(Failure::IncorrectProgramId)
    } else {
        tagged_root(account.data@)
    }
}

/// Where the record `index` of a registry starts and ends, for a header of `header` bytes and
/// records of `size` bytes.
pub open spec fn record_start(header: nat, size: nat, index: nat) -> nat {
    header + index * size
}

/// The network record `index` of the root ledger stored in `data`, where the ledger has that
/// many records and `data` holds them.
pub open spec fn network_record(data: Seq<u8>, index: u32) -> Option<NetworkRecord> {
    let start = record_start(ROOT_ACCOUNT_SIZE as nat, NETWORK_RECORD_SIZE as nat, index as nat);
    if data.len() >= ROOT_ACCOUNT_SIZE && index < RootAccount::unpacked(data).networks_count
        && start + NETWORK_RECORD_SIZE <= data.len() {
        Some(NetworkRecord::unpacked(data.subrange(start as int, start + NETWORK_RECORD_SIZE)))
    } else {
        None
    }
}

/// The operator record `index` of the holder registry stored in `data`.
pub open spec fn operator_record(data: Seq<u8>, index: nat) -> OperatorRecord {
    let start = record_start(HOLDER_ACCOUNT_SIZE as nat, OPERATOR_RECORD_SIZE as nat, index);
    OperatorRecord::unpacked(data.subrange(start as int, start + OPERATOR_RECORD_SIZE))
}

/// Whether `data` holds a holder registry together with all the operator records it counts.
pub open spec fn holds_registry(data: Seq<u8>) -> bool {
    data.len() >= HOLDER_ACCOUNT_SIZE && record_start(
        HOLDER_ACCOUNT_SIZE as nat,
        OPERATOR_RECORD_SIZE as nat,
        HolderAccount::unpacked(data).operators_count as nat,
    ) <= data.len()
}

/// The position of the first operator record with the given version, if there is one.
pub open spec fn operator_position(data: Seq<u8>, version: u32) -> Option<nat> {
    let count = HolderAccount::unpacked(data).operators_count as nat;
    if exists|i: nat| i < count && (#[trigger] operator_record(data, i)).version == version {
        Some(
            choose|i: nat|
                i < count && (#[trigger] operator_record(data, i)).version == version && forall|
                    j: nat,
                |
                    j < i ==> (#[trigger] operator_record(data, j)).version != version,
        )
    } else {
        None
    }
}

/// What the check of the holder registry's account gives: this program owns it, it is
/// writable exactly where `writable` asks so, and it holds a registry with the holder's tag.
pub open spec fn holder_account_check(account: AccountView, program_id: Address, writable: bool) -> Result<
    (),
    Failure,
> {
    if account.owner == program_id && account.is_writable == writable && holds_registry(
        account.data@,
    ) && HolderAccount::unpacked(account.data@).tag == HOLDER_TAG {
        Ok(())
    } else {
        Err(Failure::Custom(HypeError::InvalidHolderAccount))
    }
}

/// What the check of the holder's admin gives: the account is the deployment's admin wallet,
/// is writable and has signed.
pub open spec fn holder_admin_check(account: AccountView, admin: Address) -> Result<(), Failure> {
    if account.key == admin && account.is_writable && account.is_signer {
        Ok(())
    } else {
        Err(Failure::Custom(HypeError::InvalidHolderAdmin))
    }
}

/// Reads the root ledger of an account that only needs the tag of a root ledger.
pub fn load_tagged_root(data: &[u8]) -> (r: Result<RootAccount, Failure>)
    ensures
        r == tagged_root(data@),
{
    match RootAccount::unpack(data) {
        Some(root) => if root.tag == ROOT_TAG {
            Ok(root)
        } else {
            Err(Failure::Custom(HypeError::InvalidAccountTag))
        },
        None => Err(Failure::Custom(HypeError::InvalidAccountTag)),
    }
}

/// Reads the root ledger of an account that this program must own.
pub fn load_root(program_id: &Address, account: &AccountView) -> (r: Result<RootAccount, Failure>)
    ensures
        r == owned_root(*program_id, *account),
{
    if !account.owner.equals(program_id) {
        return Err(Failure::IncorrectProgramId);
    }
    load_tagged_root(account.data.as_slice())
}

/// Reads the network record `index` of the root ledger stored in `data`.
pub fn read_network(data: &[u8], index: u32) -> (r: Option<NetworkRecord>)
    ensures
        r == network_record(data@, index),
{
    let root = match RootAccount::unpack(data) {
        Some(root) => root,
        None => {
            return None;
        },
    };
    if index >= root.networks_count {
        return None;
    }
    let start: u64 = ROOT_ACCOUNT_SIZE as u64 + (index as u64) * (NETWORK_RECORD_SIZE as u64);
    if start + NETWORK_RECORD_SIZE as u64 > data.len() as u64 {
        return None;
    }
    let from: usize = start as usize;
    NetworkRecord::unpack(slice_subrange(data, from, from + NETWORK_RECORD_SIZE))
}

/// Checks the account of the holder registry.
pub fn check_holder_account(account: &AccountView, program_id: &Address, writable: bool) -> (r:
    Result<(), Failure>)
    ensures
        r == holder_account_check(*account, *program_id, writable),
{
    if !account.owner.equals(program_id) || account.is_writable != writable {
        return Err(Failure::Custom(HypeError::InvalidHolderAccount));
    }
    match HolderAccount::unpack(account.data.as_slice()) {
        Some(holder) => {
            let end: u64 = HOLDER_ACCOUNT_SIZE as u64 + (holder.operators_count as u64) * (
            OPERATOR_RECORD_SIZE as u64);
            if holder.tag == HOLDER_TAG && end <= account.data.len() as u64 {
                Ok(())
            } else {
                Err(Failure::Custom(HypeError::InvalidHolderAccount))
            }
        },
        None => Err(Failure::Custom(HypeError::InvalidHolderAccount)),
    }
}

/// Checks that `account` is the admin of the holder registry.
pub fn check_holder_admin(account: &AccountView, admin: &Address) -> (r: Result<(), Failure>)
    ensures
        r == holder_admin_check(*account, *admin),
{
    if !account.key.equals(admin) || !account.is_writable || !account.is_signer {
        return Err(Failure::Custom(HypeError::InvalidHolderAdmin));
    }
    Ok(())
}

/// Finds the first operator record with the given version.
pub fn find_operator(data: &[u8], version: u32) -> (r: Option<(u32, OperatorRecord)>)
    requires
        holds_registry(data@),
    ensures
        match r {
            Some((i, record)) => operator_position(data@, version) == Some(i as nat) && record
                == operator_record(data@, i as nat),
            None => operator_position(data@, version) is None,
        },
{
    let count: u32 = read_u32(data, 52);
    assert(count == HolderAccount::unpacked(data@).operators_count);
    let len: usize = data.len();
    let mut i: u32 = 0;
    while i < count
        invariant
            i <= count,
            len == data@.len(),
            holds_registry(data@),
            count == HolderAccount::unpacked(data@).operators_count,
            forall|j: nat| j < i ==> (#[trigger] operator_record(data@, j)).version != version,
        decreases count - i,
    {
        assert(record_start(HOLDER_ACCOUNT_SIZE as nat, OPERATOR_RECORD_SIZE as nat, i as nat) == 56
            + i * 72);
        assert(record_start(HOLDER_ACCOUNT_SIZE as nat, OPERATOR_RECORD_SIZE as nat, count as nat)
            == 56 + count * 72);
        let start: u64 = HOLDER_ACCOUNT_SIZE as u64 + (i as u64) * 72;
        assert(start + 72 <= 56 + count * 72);
        let from: usize = start as usize;
        let record = OperatorRecord::unpack(slice_subrange(data, from, from + OPERATOR_RECORD_SIZE));
        match record {
            Some(record) => {
                if record.version == version {
                    assert(operator_record(data@, i as nat).version == version);
                    return Some((i, record));
                }
            },
            None => {},
        }
        i = i + 1;
    }
    None
}

} // verus!
