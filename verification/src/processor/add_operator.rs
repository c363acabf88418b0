//! Registration of an operator in the holder registry.

use crate::account::{AccountView, Host};
use crate::action::{agrees, Effects, EffectsModel};
use crate::address::Address;
use crate::bytes::{bytes_32, read_32, read_u32, u32_at};
use crate::constants::{HOLDER_ACCOUNT_SIZE, OPERATOR_NAME_STRING_LENGTH, OPERATOR_RECORD_SIZE};
use crate::error::{Failure, HypeError};
use crate::ledger::{
    check_holder_account, check_holder_admin, find_operator, holder_account_check,
    holder_admin_check, holds_registry, operator_position, record_start,
};
use crate::registry::{grow, growth_actions, Appended};
use crate::rent::{rent_exempt_minimum, rent_minimum, MAX_RENT_LEN};
use crate::state::holder::{HolderAccount, OperatorRecord};
use vstd::prelude::*;

verus! {

/// Bytes of the holder registry once it holds `count` operator records.
pub open spec fn holder_registry_len(count: nat) -> nat {
    record_start(HOLDER_ACCOUNT_SIZE as nat, OPERATOR_RECORD_SIZE as nat, count)
}

/// What the registration gives: the registry's header with one operator more, the operator's
/// record with its id and place, and the intents that make room for it; or the failure.
///
/// The accounts are the holder's admin, the holder registry, the operator's authority and the
/// system program. `data` holds the version at offset 1, the cap on networks at offset 5 and
/// the operator's name at offset 9. A version that the registry already holds is refused.
pub open spec fn operator_addition(
    program_id: Address,
    accounts: Seq<AccountView>,
    data: Seq<u8>,
    host: Host,
) -> Result<(Appended<HolderAccount, OperatorRecord>, EffectsModel), Failure> {
    if accounts.len() != 4 {
        Err(Failure::Custom(HypeError::InvalidAccountsNumber))
    } else if data.len() != 9 + OPERATOR_NAME_STRING_LENGTH {
        Err(Failure::Custom(HypeError::InvalidDataLength))
    } else {
        match holder_admin_check(accounts[0], host.holder_admin) {
            Err(e) => Err(e),
            Ok(_) => match holder_account_check(accounts[1], program_id, true) {
                Err(e) => Err(e),
                Ok(_) => {
                    let holder = HolderAccount::unpacked(accounts[1].data@);
                    let version = u32_at(data, 1);
                    let new_size = holder_registry_len((holder.operators_count + 1) as nat);
                    if accounts[1].data@.len() < new_size && new_size > MAX_RENT_LEN {
                        Err(Failure::InvalidRealloc)
                    } else if operator_position(accounts[1].data@, version) is Some {
                        Err(Failure::Custom(HypeError::InvalidNewOperatorAccount))
                    } else if holder.operators_count == u32::MAX {
                        Err(Failure::Custom(HypeError::ArithmeticOverflow))
                    } else {
                        Ok(
                            (
                                Appended {
                                    header: HolderAccount {
                                        operators_count: (holder.operators_count + 1) as u32,
                                        time: host.clock.time,
                                        slot: host.clock.slot,
                                        ..holder
                                    },
                                    record: OperatorRecord {
                                        operator_address: accounts[2].key,
                                        version,
                                        max_networks_count: u32_at(data, 5),
                                        operator_name: bytes_32(data.subrange(9, 41)),
                                    },
                                    id: holder.operators_count,
                                    offset: holder_registry_len(
                                        holder.operators_count as nat,
                                    ) as usize,
                                },
                                EffectsModel {
                                    actions: growth_actions(
                                        accounts[0].key,
                                        accounts[1],
                                        new_size,
                                        rent_minimum(new_size) as u64,
                                        true,
                                    ),
                                },
                            ),
                        )
                    }
                },
            },
        }
    }
}

/// A registered operator takes the next id: the count before, which then grows by one. Its
/// record starts where the records before it end, and no record before it has its version.
pub proof fn operator_takes_the_next_id(
    program_id: Address,
    accounts: Seq<AccountView>,
    data: Seq<u8>,
    host: Host,
)
    requires
        operator_addition(program_id, accounts, data, host) is Ok,
    ensures
        ({
            let added = operator_addition(program_id, accounts, data, host)->Ok_0.0;
            let before = HolderAccount::unpacked(accounts[1].data@);
            &&& added.id == before.operators_count
            &&& added.header.operators_count == before.operators_count + 1
            &&& added.offset == holder_registry_len(added.id as nat)
            &&& forall|i: nat|
                i < added.id ==> (#[trigger] crate::ledger::operator_record(
                    accounts[1].data@,
                    i,
                )).version != added.record.version
            &&& forall|i: nat|
                i < added.id ==> record_start(
                    HOLDER_ACCOUNT_SIZE as nat,
                    OPERATOR_RECORD_SIZE as nat,
                    i,
                ) + OPERATOR_RECORD_SIZE <= added.offset
        }),
{
    let added = operator_addition(program_id, accounts, data, host)->Ok_0.0;
    assert(holder_registry_len(added.id as nat) == 56 + added.id * 72);
    assert(holder_registry_len(added.id as nat) <= accounts[1].data@.len());
    vstd::std_specs::vec::axiom_spec_len(&accounts[1].data);
    assert(accounts[1].data@.len() <= usize::MAX);
    assert(added.offset == holder_registry_len(added.id as nat));
    assert forall|i: nat| i < added.id implies record_start(
        HOLDER_ACCOUNT_SIZE as nat,
        OPERATOR_RECORD_SIZE as nat,
        i,
    ) + OPERATOR_RECORD_SIZE <= added.offset by {
        crate::registry::records_are_disjoint(
            HOLDER_ACCOUNT_SIZE as nat,
            OPERATOR_RECORD_SIZE as nat,
            i,
            added.id as nat,
        );
    }
}

/// The registry's account with the outcome of a registration stored: the header at the start
/// and the record at its place.
pub open spec fn with_operator(data: Seq<u8>, added: Appended<HolderAccount, OperatorRecord>) -> Seq<
    u8,
> {
    added.record.stored_at(added.header.stored_at(data, 0), added.offset as int)
}

/// What is registered is read back: once the outcome of a registration is stored in the
/// grown account, the account holds a registry with the new header, the new record is the
/// record of its id, and every record before it is what it was.
pub proof fn stored_operator_is_read_back(
    before: Seq<u8>,
    grown: Seq<u8>,
    added: Appended<HolderAccount, OperatorRecord>,
)
    requires
        holds_registry(before),
        added.id == HolderAccount::unpacked(before).operators_count,
        added.header.operators_count == added.id + 1,
        added.offset == holder_registry_len(added.id as nat),
        grown.len() >= holder_registry_len((added.id + 1) as nat),
        grown.subrange(0, holder_registry_len(added.id as nat) as int) == before.subrange(
            0,
            holder_registry_len(added.id as nat) as int,
        ),
    ensures
        holds_registry(with_operator(grown, added)),
        HolderAccount::unpacked(with_operator(grown, added)) == added.header,
        crate::ledger::operator_record(with_operator(grown, added), added.id as nat)
            == added.record,
        forall|i: nat|
            i < added.id ==> crate::ledger::operator_record(with_operator(grown, added), i)
                == crate::ledger::operator_record(before, i),
{
    let end = holder_registry_len(added.id as nat) as int;
    assert(end == 56 + added.id * 72);
    assert(holder_registry_len((added.id + 1) as nat) == end + 72);
    let headed = added.header.stored_at(grown, 0);
    let stored = with_operator(grown, added);
    added.header.store_then_unpack(grown, 0);
    added.record.store_then_unpack(headed, end);
    // the header is read from the first bytes, which the record does not touch
    assert(HolderAccount::unpacked(stored) == HolderAccount::unpacked(headed)) by {
        assert(stored.subrange(0, 4) == headed.subrange(0, 4));
        assert(stored.subrange(4, 8) == headed.subrange(4, 8));
        assert(stored.subrange(8, 40) == headed.subrange(8, 40));
        assert(stored.subrange(40, 48) == headed.subrange(40, 48));
        assert(stored.subrange(48, 52) == headed.subrange(48, 52));
        assert(stored.subrange(52, 56) == headed.subrange(52, 56));
    }
    assert(holder_registry_len(added.header.operators_count as nat) == end + 72);
    assert forall|i: nat| i < added.id implies crate::ledger::operator_record(stored, i)
        == crate::ledger::operator_record(before, i) by {
        let start = record_start(
            HOLDER_ACCOUNT_SIZE as nat,
            OPERATOR_RECORD_SIZE as nat,
            i,
        ) as int;
        crate::registry::records_are_disjoint(
            HOLDER_ACCOUNT_SIZE as nat,
            OPERATOR_RECORD_SIZE as nat,
            i,
            added.id as nat,
        );
        assert(start == 56 + i * 72);
        assert(stored.subrange(start, start + 72) == headed.subrange(start, start + 72));
        assert(headed.subrange(start, start + 72) == grown.subrange(start, start + 72));
        assert(grown.subrange(start, start + 72) =~= grown.subrange(0, end).subrange(
            start,
            start + 72,
        ));
        assert(before.subrange(start, start + 72) =~= before.subrange(0, end).subrange(
            start,
            start + 72,
        ));
    }
}

/// Stores the outcome of a registration in the registry's account, where it fits; returns
/// whether it did.
pub fn store_operator(added: &Appended<HolderAccount, OperatorRecord>, data: &mut Vec<u8>) -> (done:
    bool)
    ensures
        done == (HOLDER_ACCOUNT_SIZE <= old(data).len() && added.offset + OPERATOR_RECORD_SIZE
            <= old(data).len()),
        done ==> final(data)@ == with_operator(old(data)@, *added),
        !done ==> final(data)@ == old(data)@,
{
    let len: usize = data.len();
    if len < OPERATOR_RECORD_SIZE || added.offset > len - OPERATOR_RECORD_SIZE {
        return false;
    }
    if !added.header.store_at(data, 0) {
        return false;
    }
    added.record.store_at(data, added.offset)
}

/// Registers an operator: the holder's admin appends an operator record under a version id of
/// its choice.
pub fn add_operator(program_id: &Address, accounts: &[AccountView], data: &[u8], host: &Host) -> (r:
    Result<(Appended<HolderAccount, OperatorRecord>, Effects), Failure>)
    ensures
        agrees(r, operator_addition(*program_id, accounts@, data@, *host)),
        r is Ok ==> r->Ok_0.0.id == HolderAccount::unpacked(accounts[1].data@).operators_count,
        r is Ok ==> r->Ok_0.0.header.operators_count == r->Ok_0.0.id + 1,
        r is Ok ==> r->Ok_0.0.offset == holder_registry_len(r->Ok_0.0.id as nat),
{
    if accounts.len() != 4 {
        return Err(Failure::Custom(HypeError::InvalidAccountsNumber));
    }
    if data.len() != 9 + OPERATOR_NAME_STRING_LENGTH {
        return Err(Failure::Custom(HypeError::InvalidDataLength));
    }
    check_holder_admin(&accounts[0], &host.holder_admin)?;
    check_holder_account(&accounts[1], program_id, true)?;
    let holder_data = accounts[1].data.as_slice();
    let len: usize = holder_data.len();
    let holder = match HolderAccount::unpack(holder_data) {
        Some(holder) => holder,
        None => {
            return Err(Failure::Custom(HypeError::InvalidHolderAccount));
        },
    };
    let version = read_u32(data, 1);
    let count = holder.operators_count;
    let offset: u64 = HOLDER_ACCOUNT_SIZE as u64 + (count as u64) * 72;
    let new_size: u64 = offset + 72;
    assert(holder_registry_len(count as nat) == 56 + count * 72);
    assert(holder_registry_len((count + 1) as nat) == 56 + (count + 1) * 72);
    let mut actions: Vec<crate::action::Action> = Vec::new();
    if (len as u64) < new_size {
        if new_size > MAX_RENT_LEN as u64 {
            return Err(Failure::InvalidRealloc);
        }
        let minimum = match rent_exempt_minimum(new_size as usize) {
            Some(minimum) => minimum,
            None => {
                return Err(Failure::InvalidRealloc);
            },
        };
        actions = grow(&accounts[0].key, &accounts[1], new_size as usize, minimum, true);
    }
    if find_operator(holder_data, version).is_some() {
        return Err(Failure::Custom(HypeError::InvalidNewOperatorAccount));
    }
    if count == u32::MAX {
        return Err(Failure::Custom(HypeError::ArithmeticOverflow));
    }
    let mut header = holder;
    header.operators_count = count + 1;
    header.time = host.clock.time;
    header.slot = host.clock.slot;
    let record = OperatorRecord {
        operator_address: accounts[2].key,
        version,
        max_networks_count: read_u32(data, 5),
        operator_name: read_32(data, 9),
    };
    proof {
        let model = operator_addition(*program_id, accounts@, data@, *host);
        assert(model is Ok);
        assert(actions@ =~= model->Ok_0.1.actions);
    }
    Ok((Appended { header, record, id: count, offset: offset as usize }, Effects { actions }))
}

} // verus!
