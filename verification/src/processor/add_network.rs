//! Registration of a network under a root ledger.

use crate::account::{AccountView, Host};
use crate::action::{agrees, Action, Effects, EffectsModel};
use crate::address::Address;
use crate::bytes::{bytes_32, bytes_64, read_32, read_64, read_u64, u64_at};
use crate::constants::{NETWORK_RECORD_SIZE, ROOT_ACCOUNT_SIZE};
use crate::error::{Failure, HypeError};
use crate::ledger::{load_root, network_record, owned_root, record_start};
use crate::log::Event;
use crate::registry::{grow, growth_actions, Appended};
use crate::rent::MAX_RENT_LEN;
use crate::state::root::{NetworkRecord, RootAccount};
use vstd::prelude::*;

verus! {

/// Bytes of a root ledger once it holds `count` network records.
pub open spec fn root_registry_len(count: nat) -> nat {
    record_start(ROOT_ACCOUNT_SIZE as nat, NETWORK_RECORD_SIZE as nat, count)
}

/// Whether a root ledger with `count` networks and the cap `max` may take one more: a cap of
/// zero is no cap.
pub open spec fn below_cap(count: u32, max: u32) -> bool {
    max == 0 || count + 1 <= max
}

/// What the registration gives: the root ledger's header with one network more, the network's
/// record with its id and place, the intents that make room for it and the audit event; or
/// the failure.
///
/// The accounts are the operator's admin, the root ledger, the network's validator and the
/// system program. `data` holds the descriptor at offset 8, the mask at offset 40 and the
/// maximum length at offset 104. The cap is checked before anything is asked of the ledger:
/// a refused registration has no effect at all.
pub open spec fn network_addition(
    program_id: Address,
    accounts: Seq<AccountView>,
    data: Seq<u8>,
    host: Host,
) -> Result<(Appended<RootAccount, NetworkRecord>, EffectsModel), Failure> {
    if accounts.len() < 4 {
        Err(Failure::NotEnoughAccountKeys)
    } else if !accounts[0].is_signer {
        Err(Failure::Custom(HypeError::AdminSignatureRequired))
    } else {
        match owned_root(program_id, accounts[1]) {
            Err(e) => Err(e),
            Ok(root) => {
                let new_size = root_registry_len((root.networks_count + 1) as nat);
                if root.admin != accounts[0].key {
                    Err(Failure::Custom(HypeError::InvalidAdmin))
                } else if data.len() < 112 {
                    Err(Failure::Custom(HypeError::InvalidDataLength))
                } else if root.networks_count == u32::MAX {
                    Err(Failure::Custom(HypeError::ArithmeticOverflow))
                } else if !below_cap(root.networks_count, root.max_networks_count) {
                    Err(Failure::Custom(HypeError::MaxNetworksCountExceeded))
                } else if accounts[1].data@.len() < new_size && new_size > MAX_RENT_LEN {
                    Err(Failure::InvalidRealloc)
                } else {
                    Ok(
                        (
                            Appended {
                                header: RootAccount {
                                    networks_count: (root.networks_count + 1) as u32,
                                    slot: host.clock.slot,
                                    time: host.clock.time,
                                    ..root
                                },
                                record: NetworkRecord {
                                    max_length: u64_at(data, 104),
                                    validator: accounts[2].key,
                                    descriptor: bytes_32(data.subrange(8, 40)),
                                    mask: bytes_64(data.subrange(40, 104)),
                                },
                                id: root.networks_count,
                                offset: root_registry_len(root.networks_count as nat) as usize,
                            },
                            EffectsModel {
                                actions: seq![
                                    Action::Log(
                                        Event::NewNetwork {
                                            network_id: root.networks_count,
                                            descriptor: bytes_32(data.subrange(8, 40)),
                                            time: host.clock.time,
                                            slot: host.clock.slot,
                                        },
                                    ),
                                ] + growth_actions(
                                    accounts[0].key,
                                    accounts[1],
                                    new_size,
                                    host.network_rent,
                                    false,
                                ),
                            },
                        ),
                    )
                }
            },
        }
    }
}

/// A registered network takes the next id: the count before, which then grows by one. Its
/// record starts where the records before it end, and the cap, where there is one, holds of
/// the new count.
pub proof fn network_takes_the_next_id(
    program_id: Address,
    accounts: Seq<AccountView>,
    data: Seq<u8>,
    host: Host,
)
    requires
        network_addition(program_id, accounts, data, host) is Ok,
    ensures
        ({
            let added = network_addition(program_id, accounts, data, host)->Ok_0.0;
            let before = RootAccount::unpacked(accounts[1].data@);
            &&& added.id == before.networks_count
            &&& added.header.networks_count == before.networks_count + 1
            &&& added.offset == root_registry_len(added.id as nat)
            &&& before.max_networks_count > 0 ==> added.header.networks_count
                <= before.max_networks_count
            &&& forall|i: nat|
                i < added.id ==> record_start(
                    ROOT_ACCOUNT_SIZE as nat,
                    NETWORK_RECORD_SIZE as nat,
                    i,
                ) + NETWORK_RECORD_SIZE <= added.offset
        }),
{
    let added = network_addition(program_id, accounts, data, host)->Ok_0.0;
    assert(root_registry_len(added.id as nat) == 392 + added.id * 136);
    assert(root_registry_len((added.id + 1) as nat) == 392 + (added.id + 1) * 136);
    vstd::std_specs::vec::axiom_spec_len(&accounts[1].data);
    assert(accounts[1].data@.len() <= usize::MAX);
    assert(added.offset == root_registry_len(added.id as nat));
    assert forall|i: nat| i < added.id implies record_start(
        ROOT_ACCOUNT_SIZE as nat,
        NETWORK_RECORD_SIZE as nat,
        i,
    ) + NETWORK_RECORD_SIZE <= added.offset by {
        crate::registry::records_are_disjoint(
            ROOT_ACCOUNT_SIZE as nat,
            NETWORK_RECORD_SIZE as nat,
            i,
            added.id as nat,
        );
    }
}

/// The root ledger's account with the outcome of a registration stored: the header at the
/// start and the record at its place.
pub open spec fn with_network(data: Seq<u8>, added: Appended<RootAccount, NetworkRecord>) -> Seq<
    u8,
> {
    added.record.stored_at(added.header.stored_at(data, 0), added.offset as int)
}

/// What is registered is read back: once the outcome of a registration is stored in the
/// grown account, the new record is the network of its id, and every network before it is
/// what it was.
pub proof fn stored_network_is_read_back(
    before: Seq<u8>,
    grown: Seq<u8>,
    added: Appended<RootAccount, NetworkRecord>,
)
    requires
        before.len() >= root_registry_len(added.id as nat),
        added.id == RootAccount::unpacked(before).networks_count,
        added.header.networks_count == added.id + 1,
        added.offset == root_registry_len(added.id as nat),
        grown.len() >= root_registry_len((added.id + 1) as nat),
        grown.subrange(0, root_registry_len(added.id as nat) as int) == before.subrange(
            0,
            root_registry_len(added.id as nat) as int,
        ),
    ensures
        with_network(grown, added).len() == grown.len(),
        RootAccount::unpacked(with_network(grown, added)) == added.header,
        network_record(with_network(grown, added), added.id) == Some(added.record),
        forall|i: u32|
            i < added.id ==> #[trigger] network_record(with_network(grown, added), i)
                == network_record(before, i),
{
    let end = root_registry_len(added.id as nat) as int;
    assert(end == 392 + added.id * 136);
    assert(root_registry_len((added.id + 1) as nat) == end + 136);
    let headed = added.header.stored_at(grown, 0);
    let stored = with_network(grown, added);
    added.header.store_then_unpack(grown, 0);
    added.record.store_then_unpack(headed, end);
    assert(RootAccount::unpacked(stored) == RootAccount::unpacked(headed)) by {
        lemma_root_reads_its_header(stored, headed);
    }
    assert(record_start(ROOT_ACCOUNT_SIZE as nat, NETWORK_RECORD_SIZE as nat, added.id as nat)
        == end);
    assert forall|i: u32| i < added.id implies #[trigger] network_record(stored, i)
        == network_record(before, i) by {
        let start = record_start(
            ROOT_ACCOUNT_SIZE as nat,
            NETWORK_RECORD_SIZE as nat,
            i as nat,
        ) as int;
        crate::registry::records_are_disjoint(
            ROOT_ACCOUNT_SIZE as nat,
            NETWORK_RECORD_SIZE as nat,
            i as nat,
            added.id as nat,
        );
        assert(start == 392 + i * 136);
        assert(stored.subrange(start, start + 136) == headed.subrange(start, start + 136));
        assert(headed.subrange(start, start + 136) == grown.subrange(start, start + 136));
        assert(grown.subrange(start, start + 136) =~= grown.subrange(0, end).subrange(
            start,
            start + 136,
        ));
        assert(before.subrange(start, start + 136) =~= before.subrange(0, end).subrange(
            start,
            start + 136,
        ));
    }
}

/// A root ledger is read from the first bytes of its account alone.
proof fn lemma_root_reads_its_header(a: Seq<u8>, b: Seq<u8>)
    requires
        forall|from: int, to: int|
            0 <= from <= to <= ROOT_ACCOUNT_SIZE ==> #[trigger] a.subrange(from, to)
                == b.subrange(from, to),
    ensures
        RootAccount::unpacked(a) == RootAccount::unpacked(b),
{
}

/// Stores the outcome of a registration in the root ledger's account, where it fits; returns
/// whether it did.
pub fn store_network(added: &Appended<RootAccount, NetworkRecord>, data: &mut Vec<u8>) -> (done:
    bool)
    ensures
        done == (ROOT_ACCOUNT_SIZE <= old(data).len() && added.offset + NETWORK_RECORD_SIZE
            <= old(data).len()),
        done ==> final(data)@ == with_network(old(data)@, *added),
        !done ==> final(data)@ == old(data)@,
{
    let len: usize = data.len();
    if len < ROOT_ACCOUNT_SIZE || added.offset > len - NETWORK_RECORD_SIZE {
        return false;
    }
    if !added.header.store_at(data, 0) {
        return false;
    }
    added.record.store_at(data, added.offset)
}

/// Bytes that a root ledger with `count` networks needs for one network more, where the
/// ledger can store that many.
pub fn required_network_len(count: u32) -> (r: Option<usize>)
    ensures
        r == if root_registry_len((count + 1) as nat) <= MAX_RENT_LEN {
            Some(root_registry_len((count + 1) as nat) as usize)
        } else {
            None
        },
{
    let new_size: u64 = ROOT_ACCOUNT_SIZE as u64 + (count as u64) * 136 + 136;
    assert(root_registry_len((count + 1) as nat) == 392 + (count + 1) * 136);
    if new_size <= MAX_RENT_LEN as u64 {
        Some(new_size as usize)
    } else {
        None
    }
}

/// Registers a network: the operator's admin appends a network record, within the operator's
/// cap on networks.
pub fn add_network(program_id: &Address, accounts: &[AccountView], data: &[u8], host: &Host) -> (r:
    Result<(Appended<RootAccount, NetworkRecord>, Effects), Failure>)
    ensures
        agrees(r, network_addition(*program_id, accounts@, data@, *host)),
        r is Ok ==> r->Ok_0.0.id == RootAccount::unpacked(accounts[1].data@).networks_count,
        r is Ok ==> r->Ok_0.0.header.networks_count == r->Ok_0.0.id + 1,
        r is Ok ==> r->Ok_0.0.offset == root_registry_len(r->Ok_0.0.id as nat),
        r is Ok ==> below_cap(r->Ok_0.0.id, r->Ok_0.0.header.max_networks_count),
{
    if accounts.len() < 4 {
        return Err(Failure::NotEnoughAccountKeys);
    }
    if !accounts[0].is_signer {
        return Err(Failure::Custom(HypeError::AdminSignatureRequired));
    }
    let root = load_root(program_id, &accounts[1])?;
    if !root.admin.equals(&accounts[0].key) {
        return Err(Failure::Custom(HypeError::InvalidAdmin));
    }
    if data.len() < 112 {
        return Err(Failure::Custom(HypeError::InvalidDataLength));
    }
    let count = root.networks_count;
    if count == u32::MAX {
        return Err(Failure::Custom(HypeError::ArithmeticOverflow));
    }
    if root.max_networks_count > 0 && count + 1 > root.max_networks_count {
        return Err(Failure::Custom(HypeError::MaxNetworksCountExceeded));
    }
    let len: usize = accounts[1].data.len();
    let offset: u64 = ROOT_ACCOUNT_SIZE as u64 + (count as u64) * 136;
    let new_size: u64 = offset + 136;
    assert(root_registry_len(count as nat) == 392 + count * 136);
    assert(root_registry_len((count + 1) as nat) == 392 + (count + 1) * 136);
    let mut growth: Vec<Action> = Vec::new();
    if (len as u64) < new_size {
        if new_size > MAX_RENT_LEN as u64 {
            return Err(Failure::InvalidRealloc);
        }
        growth = grow(&accounts[0].key, &accounts[1], new_size as usize, host.network_rent, false);
    }
    let descriptor = read_32(data, 8);
    let mut header = root;
    header.networks_count = count + 1;
    header.slot = host.clock.slot;
    header.time = host.clock.time;
    let record = NetworkRecord {
        max_length: read_u64(data, 104),
        validator: accounts[2].key,
        descriptor,
        mask: read_64(data, 40),
    };
    let mut actions: Vec<Action> = Vec::new();
    actions.push(
        Action::Log(
            Event::NewNetwork {
                network_id: count,
                descriptor,
                time: host.clock.time,
                slot: host.clock.slot,
            },
        ),
    );
    let ghost grown = growth@;
    actions.append(&mut growth);
    proof {
        let model = network_addition(*program_id, accounts@, data@, *host);
        assert(model is Ok);
        assert(grown =~= growth_actions(
            accounts@[0].key,
            accounts@[1],
            new_size as nat,
            host.network_rent,
            false,
        ));
        assert(actions@ =~= model->Ok_0.1.actions);
    }
    Ok((Appended { header, record, id: count, offset: offset as usize }, Effects { actions }))
}

} // verus!
