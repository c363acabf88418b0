//! Ledger addresses and the deterministic derivation of program-controlled addresses.
//!
//! A derived address is computed from seeds and the address of the controlling program. No
//! private key belongs to it, so only that program can sign for it. The derivation itself is
//! the host's: this module names its result, states the search for a bump seed over it, and
//! checks accounts against what is found.

use crate::account::AccountView;
use crate::bytes::{put_bytes, rows};
use crate::constants::{ASSOCIATED_TOKEN_PROGRAM_ID, HYPE_SEED, SYSTEM_PROGRAM_ID};
use crate::error::{Failure, HypeError};
use solana_program::pubkey::{Pubkey, PubkeyError};
use vstd::bytes::*;
use vstd::prelude::*;

verus! {

/// A 32-byte ledger address.
#[derive(Clone, Copy, Debug, PartialEq, Eq)]
pub struct Address {
    pub bytes: [u8; 32],
}

impl Address {
    /// The address with the given bytes.
    pub fn new(bytes: [u8; 32]) -> (r: Address)
        ensures
            r.bytes == bytes,
    {
        Address { bytes }
    }

    /// Whether the two addresses are the same.
    pub fn equals(&self, other: &Address) -> (r: bool)
        ensures
            r == (*self == *other),
    {
        let mut i: usize = 0;
        while i < 32
            invariant
                i <= 32,
                forall|j: int| 0 <= j < i ==> self.bytes@[j] == other.bytes@[j],
            decreases 32 - i,
        {
            if self.bytes[i] != other.bytes[i] {
                return false;
            }
            i = i + 1;
        }
        assert(self.bytes =~= other.bytes);
        true
    }

    /// Whether this is the address of the system program.
    pub fn is_system_program(&self) -> (r: bool)
        ensures
            r == (self.bytes == SYSTEM_PROGRAM_ID),
    {
        self.equals(&Address { bytes: SYSTEM_PROGRAM_ID })
    }

    /// The bytes of the address as a vector.
    pub fn to_vec(&self) -> (r: Vec<u8>)
        ensures
            r@ == self.bytes@,
    {
        let mut out: Vec<u8> = Vec::new();
        put_bytes(&mut out, self.bytes.as_slice());
        out
    }
}

/// The address that the host derives from `seeds` for the program `program_id`, where the
/// seeds give one: what `Pubkey::create_program_address` returns on success.
pub uninterp spec fn program_address(seeds: Seq<Seq<u8>>, program_id: Seq<u8>) -> Option<Seq<u8>>;

/// Whether the host refuses the seeds for their number or length.
pub open spec fn seeds_too_long(seeds: Seq<Seq<u8>>) -> bool {
    seeds.len() > 16 || exists|i: int| 0 <= i < seeds.len() && (#[trigger] seeds[i]).len() > 32
}

/// The search for a bump seed from `bump` down to 1: the first bump seed that, put behind
/// `seeds` as a seed of one byte, derives an address, and that address. The search ends
/// without one where the host refuses the seeds with a bump seed for their number or length.
pub open spec fn search_from(seeds: Seq<Seq<u8>>, program_id: Seq<u8>, bump: nat) -> Option<
    (Seq<u8>, u8),
>
    decreases bump,
{
    if bump == 0 || bump > 255 || seeds_too_long(seeds.push(seq![bump as u8])) {
        None
    } else {
        match program_address(seeds.push(seq![bump as u8]), program_id) {
            Some(address) => Some((address, bump as u8)),
            None => search_from(seeds, program_id, (bump - 1) as nat),
        }
    }
}

/// The derived address and bump seed that the host finds for `seeds` and the program
/// `program_id`, where there is one: the search starts at the bump seed 255.
pub open spec fn found_program_address(seeds: Seq<Seq<u8>>, program_id: Seq<u8>) -> Option<
    (Seq<u8>, u8),
> {
    search_from(seeds, program_id, 255)
}

/// Calls `Pubkey::create_program_address`. More than 16 seeds, or a seed of more than 32
/// bytes, give `MaxSeedLengthExceeded`; otherwise the result is the derived address, or
/// `InvalidSeeds` where the seeds derive none.
#[verifier::external_body]
pub(crate) fn create_program_address(seeds: &Vec<Vec<u8>>, program_id: &Address) -> (r: Result<
    Address,
    Failure,
>)
    ensures
        match r {
            Ok(a) => !seeds_too_long(rows(seeds)) && program_address(
                rows(seeds),
                program_id.bytes@,
            ) == Some(a.bytes@),
            Err(e) => if seeds_too_long(rows(seeds)) {
                e == Failure::MaxSeedLengthExceeded
            } else {
                e == Failure::InvalidSeeds && program_address(
                    rows(seeds),
                    program_id.bytes@,
                ) is None
            },
        },
{
    let parts: Vec<&[u8]> = seeds.iter().map(|s| s.as_slice()).collect();
    match Pubkey::create_program_address(&parts, &Pubkey::new_from_array(program_id.bytes)) {
        Ok(key) => Ok(Address { bytes: key.to_bytes() }),
        Err(PubkeyError::MaxSeedLengthExceeded) => Err(Failure::MaxSeedLengthExceeded),
        Err(PubkeyError::InvalidSeeds) => Err(Failure::InvalidSeeds),
        Err(PubkeyError::IllegalOwner) => Err(Failure::IllegalOwner),
    }
}

/// Calls `Pubkey::try_find_program_address`, which tries the bump seeds from 255 down to 1
/// with `Pubkey::create_program_address` and returns the first that derives an address, with
/// that address; `None` where none does, or where the seeds are refused for their number or
/// length.
#[verifier::external_body]
pub(crate) fn find_program_address(seeds: &Vec<Vec<u8>>, program_id: &Address) -> (r: Option<
    (Address, u8),
>)
    ensures
        match r {
            Some((a, bump)) => found_program_address(rows(seeds), program_id.bytes@) == Some(
                (a.bytes@, bump),
            ),
            None => found_program_address(rows(seeds), program_id.bytes@) is None,
        },
{
    let parts: Vec<&[u8]> = seeds.iter().map(|s| s.as_slice()).collect();
    match Pubkey::try_find_program_address(&parts, &Pubkey::new_from_array(program_id.bytes)) {
        Some((key, bump)) => Some((Address { bytes: key.to_bytes() }, bump)),
        None => None,
    }
}

/// The address with the given bytes.
pub open spec fn address_from(bytes: Seq<u8>) -> Address {
    choose|a: Address| a.bytes@ == bytes
}

/// An address is the one made from its own bytes.
pub proof fn lemma_address_from_bytes(a: Address)
    ensures
        address_from(a.bytes@) == a,
{
    let b = address_from(a.bytes@);
    assert(b.bytes@ == a.bytes@);
    assert(b.bytes =~= a.bytes);
}

/// The derived address and bump seed of `seeds` under the program `program_id`.
pub open spec fn derived(seeds: Seq<Seq<u8>>, program_id: Address) -> Option<(Address, u8)> {
    match found_program_address(seeds, program_id.bytes@) {
        Some((bytes, bump)) => Some((address_from(bytes), bump)),
        None => None,
    }
}

/// What the host gives for the address of `seeds` under the program `program_id`, without a
/// search for a bump seed.
pub open spec fn created(seeds: Seq<Seq<u8>>, program_id: Address) -> Result<Address, Failure> {
    if seeds_too_long(seeds) {
        Err(Failure::MaxSeedLengthExceeded)
    } else {
        match program_address(seeds, program_id.bytes@) {
            Some(bytes) => Ok(address_from(bytes)),
            None => Err(Failure::InvalidSeeds),
        }
    }
}

/// Whether the program signs for `address` with `seeds` followed by the bump seed: the host
/// gives that address for them.
pub open spec fn signs_for(seeds: Seq<Seq<u8>>, bump: u8, program_id: Address, address: Address) -> bool {
    created(seeds.push(seq![bump]), program_id) == Ok::<Address, Failure>(address)
}

proof fn lemma_search_finds(seeds: Seq<Seq<u8>>, program_id: Seq<u8>, from: nat)
    requires
        search_from(seeds, program_id, from) is Some,
    ensures
        ({
            let (address, bump) = search_from(seeds, program_id, from)->Some_0;
            &&& 1 <= bump <= from
            &&& !seeds_too_long(seeds.push(seq![bump]))
            &&& program_address(seeds.push(seq![bump]), program_id) == Some(address)
        }),
    decreases from,
{
    if program_address(seeds.push(seq![from as u8]), program_id) is None {
        lemma_search_finds(seeds, program_id, (from - 1) as nat);
    }
}

proof fn lemma_search_is_first(seeds: Seq<Seq<u8>>, program_id: Seq<u8>, from: nat, other: u8)
    requires
        search_from(seeds, program_id, from) is Some,
        search_from(seeds, program_id, from)->Some_0.1 < other <= from,
    ensures
        program_address(seeds.push(seq![other]), program_id) is None,
    decreases from,
{
    if program_address(seeds.push(seq![from as u8]), program_id) is None && other < from {
        lemma_search_is_first(seeds, program_id, (from - 1) as nat, other);
    }
}

/// The program signs for a derived address with its seeds and the bump seed found, and the
/// bump seed found is the largest with which the seeds derive an address at all.
pub proof fn derived_address_is_signed_for(seeds: Seq<Seq<u8>>, program_id: Address)
    requires
        derived(seeds, program_id) is Some,
    ensures
        signs_for(
            seeds,
            derived(seeds, program_id)->Some_0.1,
            program_id,
            derived(seeds, program_id)->Some_0.0,
        ),
        derived(seeds, program_id)->Some_0.1 >= 1,
        forall|other: u8|
            derived(seeds, program_id)->Some_0.1 < other ==> #[trigger] created(
                seeds.push(seq![other]),
                program_id,
            ) is Err,
{
    lemma_search_finds(seeds, program_id.bytes@, 255);
    assert forall|other: u8| derived(seeds, program_id)->Some_0.1 < other implies #[trigger] created(
        seeds.push(seq![other]),
        program_id,
    ) is Err by {
        lemma_search_is_first(seeds, program_id.bytes@, 255, other);
    }
}

/// The address that signs for the program, and its bump seed.
pub open spec fn hype_authority(program_id: Address) -> Option<(Address, u8)> {
    derived(seq![HYPE_SEED@], program_id)
}

/// The seeds of an entry with the given seed that belongs to `base`.
pub open spec fn entry_seeds(seed: Seq<u8>, base: Address) -> Seq<Seq<u8>> {
    seq![seed, base.bytes@]
}

/// The seeds of the token account that `wallet` holds for `mint` under `token_program`.
pub open spec fn associated_seeds(wallet: Address, mint: Address, token_program: Address) -> Seq<
    Seq<u8>,
> {
    seq![wallet.bytes@, token_program.bytes@, mint.bytes@]
}

/// The address of the token account that `wallet` holds for `mint` under `token_program`.
pub open spec fn associated_token_address(
    wallet: Address,
    mint: Address,
    token_program: Address,
) -> Option<Address> {
    match derived(
        associated_seeds(wallet, mint, token_program),
        Address { bytes: ASSOCIATED_TOKEN_PROGRAM_ID },
    ) {
        Some((a, _)) => Some(a),
        None => None,
    }
}

/// What the check of an existing entry gives: the bump seed where the derivation yields the
/// entry's address, an invalid-key failure otherwise.
pub open spec fn existing_account_check(key: Address, found: Option<(Address, u8)>) -> Result<
    u8,
    Failure,
> {
    match found {
        Some((a, bump)) => if a == key {
            Ok(bump)
        } else {
            Err(Failure::Custom(HypeError::InvalidAccountKey))
        },
        None => Err(Failure::Custom(HypeError::InvalidAccountKey)),
    }
}

/// What the check of an entry that is about to be created gives: as for an existing entry,
/// and the account must still belong to the system program.
pub open spec fn new_account_check(account: AccountView, found: Option<(Address, u8)>) -> Result<
    u8,
    Failure,
> {
    if account.owner.bytes == SYSTEM_PROGRAM_ID {
        existing_account_check(account.key, found)
    } else {
        Err(Failure::Custom(HypeError::InvalidAccountKey))
    }
}

/// What the check of an entry that the program reads gives: as for an existing entry, and the
/// account must belong to the program `program_id`.
pub open spec fn owned_account_check(
    account: AccountView,
    program_id: Address,
    found: Option<(Address, u8)>,
) -> Result<u8, Failure> {
    if account.owner == program_id {
        existing_account_check(account.key, found)
    } else {
        Err(Failure::Custom(HypeError::InvalidAccountKey))
    }
}

/// Derives the address and bump seed of `seeds` under the program `program_id`.
pub fn derive_address(seeds: &Vec<Vec<u8>>, program_id: &Address) -> (r: Option<(Address, u8)>)
    ensures
        r == derived(rows(seeds), *program_id),
        r is Some ==> signs_for(rows(seeds), r->Some_0.1, *program_id, r->Some_0.0),
{
    let r = find_program_address(seeds, program_id);
    proof {
        if let Some((a, _)) = r {
            lemma_address_from_bytes(a);
            derived_address_is_signed_for(rows(seeds), *program_id);
        }
    }
    r
}

/// Derives the address of `seeds` under the program `program_id`, without a search for a
/// bump seed.
pub fn create(seeds: &Vec<Vec<u8>>, program_id: &Address) -> (r: Result<Address, Failure>)
    ensures
        r == created(rows(seeds), *program_id),
{
    let r = create_program_address(seeds, program_id);
    proof {
        if let Ok(a) = r {
            lemma_address_from_bytes(a);
        }
    }
    r
}

/// Derives the address that signs for the program.
pub fn derive_hype_authority(program_id: &Address) -> (r: Option<(Address, u8)>)
    ensures
        r == hype_authority(*program_id),
        r is Some ==> signs_for(seq![HYPE_SEED@], r->Some_0.1, *program_id, r->Some_0.0),
{
    let mut seeds: Vec<Vec<u8>> = Vec::new();
    seeds.push(crate::bytes::copy_bytes(HYPE_SEED.as_slice()));
    assert(rows(&seeds) =~= seq![HYPE_SEED@]);
    derive_address(&seeds, program_id)
}

/// Derives the address of an entry from its seed and the address it belongs to.
pub fn derive_entry(seed: &[u8], base: &Address, program_id: &Address) -> (r: Option<(Address, u8)>)
    ensures
        r == derived(entry_seeds(seed@, *base), *program_id),
        r is Some ==> signs_for(entry_seeds(seed@, *base), r->Some_0.1, *program_id, r->Some_0.0),
{
    let mut first: Vec<u8> = Vec::new();
    put_bytes(&mut first, seed);
    let mut seeds: Vec<Vec<u8>> = Vec::new();
    seeds.push(first);
    seeds.push(base.to_vec());
    assert(rows(&seeds) =~= entry_seeds(seed@, *base));
    derive_address(&seeds, program_id)
}

/// Derives the address of the token account that `wallet` holds for `mint` under
/// `token_program`.
pub fn get_associated_token_address(wallet: &Address, mint: &Address, token_program: &Address) -> (r:
    Option<Address>)
    ensures
        r == associated_token_address(*wallet, *mint, *token_program),
{
    let mut seeds: Vec<Vec<u8>> = Vec::new();
    seeds.push(wallet.to_vec());
    seeds.push(token_program.to_vec());
    seeds.push(mint.to_vec());
    assert(rows(&seeds) =~= associated_seeds(*wallet, *mint, *token_program));
    match derive_address(&seeds, &Address { bytes: ASSOCIATED_TOKEN_PROGRAM_ID }) {
        Some((a, _)) => Some(a),
        None => None,
    }
}

/// Whether `key` is the address `expected`.
pub fn matches_address(expected: &Option<Address>, key: &Address) -> (r: bool)
    ensures
        r == (*expected == Some(*key)),
{
    match expected {
        Some(a) => a.equals(key),
        None => false,
    }
}

/// Checks an existing entry against the derivation `found`.
pub fn verify_existing(key: &Address, found: Option<(Address, u8)>) -> (r: Result<u8, Failure>)
    ensures
        r == existing_account_check(*key, found),
{
    match found {
        Some((a, bump)) => if a.equals(key) {
            Ok(bump)
        } else {
            Err(Failure::Custom(HypeError::InvalidAccountKey))
        },
        None => Err(Failure::Custom(HypeError::InvalidAccountKey)),
    }
}

/// Checks an entry that is about to be created against the derivation `found`.
pub fn verify_new(account: &AccountView, found: Option<(Address, u8)>) -> (r: Result<u8, Failure>)
    ensures
        r == new_account_check(*account, found),
{
    if !account.owner.is_system_program() {
        return Err(Failure::Custom(HypeError::InvalidAccountKey));
    }
    verify_existing(&account.key, found)
}

/// "New" mode: `account` must be unowned and lie at the address derived from `seed` and `pda`.
/// Returns the bump seed of the derivation, with which the program signs for the account.
pub fn check_new_account(account: &AccountView, pda: &Address, program_id: &Address, seed: &[u8]) -> (r:
    Result<u8, Failure>)
    ensures
        r == new_account_check(*account, derived(entry_seeds(seed@, *pda), *program_id)),
        r is Ok ==> signs_for(entry_seeds(seed@, *pda), r->Ok_0, *program_id, account.key),
{
    let found = derive_entry(seed, pda, program_id);
    verify_new(account, found)
}

/// "Existing" mode: `account` must belong to the program and lie at the address derived from
/// `seed` and `pda`. Returns the bump seed of the derivation, with which the program signs for
/// the account. An account of another owner is refused whatever its address: what it holds
/// was not written by this program.
pub fn check_account(account: &AccountView, pda: &Address, program_id: &Address, seed: &[u8]) -> (r:
    Result<u8, Failure>)
    ensures
        r == owned_account_check(
            *account,
            *program_id,
            derived(entry_seeds(seed@, *pda), *program_id),
        ),
        r is Ok ==> signs_for(entry_seeds(seed@, *pda), r->Ok_0, *program_id, account.key),
{
    if !account.owner.equals(program_id) {
        return Err(Failure::Custom(HypeError::InvalidAccountKey));
    }
    let found = derive_entry(seed, pda, program_id);
    verify_existing(&account.key, found)
}

/// The seed of an entry of kind `tag` under operator `version`.
pub open spec fn seed_by_tag(version: u32, tag: u32) -> Seq<u8> {
    spec_u32_to_le_bytes(version) + spec_u32_to_le_bytes(tag)
}

/// The seed of the token record of the external address `address` on `network`.
pub open spec fn token_seed(version: u32, network: u32, address: Seq<u8>) -> Seq<u8> {
    address.subrange(0, 24) + spec_u32_to_le_bytes(network) + spec_u32_to_le_bytes(version)
}

/// Builds the seed of an entry of kind `tag` under operator `version`: both numbers in
/// little-endian order.
pub fn get_seed_by_tag(version: u32, tag: u32) -> (r: [u8; 8])
    ensures
        r@ == seed_by_tag(version, tag),
{
    let v = u32_to_le_bytes(version);
    let t = u32_to_le_bytes(tag);
    let r = [v[0], v[1], v[2], v[3], t[0], t[1], t[2], t[3]];
    assert(r@ =~= seed_by_tag(version, tag));
    r
}

/// Builds the seed of a token record: the first 24 bytes of `address`, then the network and
/// the version in little-endian order.
pub fn get_token_seed_bytes(version: u32, network: u32, address: &[u8]) -> (r: [u8; 32])
    requires
        address.len() >= 24,
    ensures
        r@ == token_seed(version, network, address@),
{
    let v = u32_to_le_bytes(version);
    let n = u32_to_le_bytes(network);
    let mut r = [0u8;32];
    let mut i: usize = 0;
    while i < 24
        invariant
            i <= 24,
            address.len() >= 24,
            forall|j: int| 0 <= j < i ==> r@[j] == address@[j],
        decreases 24 - i,
    {
        r[i] = address[i];
        i = i + 1;
    }
    r[24] = n[0];
    r[25] = n[1];
    r[26] = n[2];
    r[27] = n[3];
    r[28] = v[0];
    r[29] = v[1];
    r[30] = v[2];
    r[31] = v[3];
    assert(r@ =~= token_seed(version, network, address@));
    r
}

} // verus!
