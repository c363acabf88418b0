//! What an operation asks of the external ledger.
//!
//! An operation performs no transfer itself. It returns, in the order in which they must be
//! carried out, the intents that the embedding program hands to the system program and to the
//! token service, each with the authority that signs it, and among them the audit events
//! that it writes to the host's log.

use crate::address::{seed_by_tag, token_seed, Address};
use crate::bytes::rows;
use crate::constants::HYPE_SEED;
use crate::error::Failure;
use crate::log::Event;
use vstd::bytes::*;
use vstd::prelude::*;

verus! {

/// Who signs an intent besides the wallets that signed the operation.
#[derive(Clone, Copy, Debug, PartialEq, Eq)]
pub enum Signer {
    /// Nobody: the wallets that signed the operation suffice.
    Wallet,
    /// The program's own authority.
    Program { bump: u8 },
    /// An entry derived from a version and a tag, under the address `base`.
    Tagged { version: u32, tag: u32, base: Address, bump: u8 },
    /// A token record, under the address `base`.
    Token { version: u32, network: u32, address: [u8; 24], base: Address, bump: u8 },
    /// The holder registry: the bytes of `seed` before its first zero byte, under the admin.
    Holder { seed: [u8; 8], admin: Address, bump: u8 },
}

/// An intent for the external ledger.
#[derive(Clone, Copy, Debug, PartialEq, Eq)]
pub enum Action {
    /// Create `account` with `space` bytes, owned by `owner`, funded by `payer`.
    CreateAccount { payer: Address, account: Address, lamports: u64, space: u64, owner: Address, signer: Signer },
    /// Move `lamports` of native currency from `from` to `to`.
    Fund { from: Address, to: Address, lamports: u64 },
    /// Grow `account` in place to `new_size` bytes, zero-filled.
    Grow { account: Address, new_size: usize },
    /// Point the mint's metadata to `metadata`.
    InitializeMetadataPointer { mint: Address, authority: Address, metadata: Address },
    /// Initialize `mint` with `decimals` decimal places and the mint authority `authority`.
    InitializeMint { mint: Address, authority: Address, decimals: u8, signer: Signer },
    /// Label `mint` with the name made of the external address and the network descriptor.
    InitializeMetadata { mint: Address, authority: Address, address: [u8; 24], descriptor: [u8; 32], signer: Signer },
    /// Initialize `account` as a holding of `mint` that belongs to `owner`.
    InitializeHolding { token_program: Address, account: Address, mint: Address, owner: Address, signer: Signer },
    /// Create the associated token account of `wallet` for `mint`, funded by `funder`.
    CreateAssociatedAccount { funder: Address, wallet: Address, mint: Address, token_program: Address },
    /// Transfer `amount` of `mint` from `source` to `destination`. Where `checked` holds the
    /// transfer names the mint and its decimals.
    Transfer {
        token_program: Address,
        source: Address,
        mint: Address,
        destination: Address,
        authority: Address,
        amount: u64,
        decimals: u8,
        checked: bool,
        signer: Signer,
    },
    /// Mint `amount` new tokens of `mint` to `destination`.
    MintTo { mint: Address, destination: Address, authority: Address, amount: u64, signer: Signer },
    /// Retire `amount` tokens of `mint` held in `account`.
    Burn { account: Address, mint: Address, authority: Address, amount: u64, signer: Signer },
    /// Write the audit event to the host's log.
    Log(Event),
}

/// What an operation asks of its surroundings besides storing the entries it returns.
#[derive(Debug)]
pub struct Effects {
    /// Intents in the order in which they are carried out, each audit event at the place
    /// among them at which it is logged.
    pub actions: Vec<Action>,
}

/// The effects of an operation as a sequence.
pub struct EffectsModel {
    pub actions: Seq<Action>,
}

impl View for Effects {
    type V = EffectsModel;

    open spec fn view(&self) -> EffectsModel {
        EffectsModel { actions: self.actions@ }
    }
}

/// Whether the result of an operation is the one that its model gives: the same failure, or
/// the same entries with the same effects.
pub open spec fn agrees<T>(
    r: Result<(T, Effects), Failure>,
    model: Result<(T, EffectsModel), Failure>,
) -> bool {
    match r {
        Ok((state, effects)) => model == Ok::<(T, EffectsModel), Failure>((state, effects@)),
        Err(e) => model == Err::<(T, EffectsModel), Failure>(e),
    }
}

/// The bytes of `seed` before its first zero byte.
pub open spec fn seed_prefix(seed: Seq<u8>) -> Seq<u8>
    decreases seed.len(),
{
    if seed.len() == 0 || seed[0] == 0 {
        Seq::empty()
    } else {
        seq![seed[0]] + seed_prefix(seed.subrange(1, seed.len() as int))
    }
}

impl Signer {
    /// The seeds with which the program signs, bump seed last; empty for `Wallet`.
    pub open spec fn seeds(self) -> Seq<Seq<u8>> {
        match self {
            Signer::Wallet => Seq::empty(),
            Signer::Program { bump } => seq![HYPE_SEED@, seq![bump]],
            Signer::Tagged { version, tag, base, bump } => seq![
                seed_by_tag(version, tag),
                base.bytes@,
                seq![bump],
            ],
            Signer::Token { version, network, address, base, bump } => seq![
                token_seed(version, network, address@),
                base.bytes@,
                seq![bump],
            ],
            Signer::Holder { seed, admin, bump } => seq![
                seed_prefix(seed@),
                admin.bytes@,
                seq![bump],
            ],
        }
    }
}

fn one_byte(b: u8) -> (r: Vec<u8>)
    ensures
        r@ == seq![b],
{
    let mut out: Vec<u8> = Vec::new();
    out.push(b);
    assert(out@ =~= seq![b]);
    out
}

impl Signer {
    /// Returns the seeds with which the program signs, bump seed last; none for `Wallet`.
    pub fn to_seeds(&self) -> (r: Vec<Vec<u8>>)
        ensures
            rows(&r) == self.seeds(),
    {
        let mut out: Vec<Vec<u8>> = Vec::new();
        match self {
            Signer::Wallet => {},
            Signer::Program { bump } => {
                out.push(crate::bytes::copy_bytes(HYPE_SEED.as_slice()));
                out.push(one_byte(*bump));
            },
            Signer::Tagged { version, tag, base, bump } => {
                let seed = crate::address::get_seed_by_tag(*version, *tag);
                out.push(crate::bytes::copy_bytes(seed.as_slice()));
                out.push(base.to_vec());
                out.push(one_byte(*bump));
            },
            Signer::Token { version, network, address, base, bump } => {
                let seed = crate::address::get_token_seed_bytes(
                    *version,
                    *network,
                    address.as_slice(),
                );
                out.push(crate::bytes::copy_bytes(seed.as_slice()));
                out.push(base.to_vec());
                out.push(one_byte(*bump));
            },
            Signer::Holder { seed, admin, bump } => {
                out.push(cut_seed(seed.as_slice()));
                out.push(admin.to_vec());
                out.push(one_byte(*bump));
            },
        }
        assert(rows(&out) =~= self.seeds());
        out
    }
}

/// Cuts `seed` before its first zero byte.
pub fn cut_seed(seed: &[u8]) -> (r: Vec<u8>)
    ensures
        r@ == seed_prefix(seed@),
{
    let mut out: Vec<u8> = Vec::new();
    let mut i: usize = 0;
    proof {
        assert(seed@.subrange(0, seed.len() as int) =~= seed@);
        assert(out@ + seed_prefix(seed@) =~= seed_prefix(seed@));
    }
    while i < seed.len() && seed[i] != 0
        invariant
            i <= seed.len(),
            seed_prefix(seed@) == out@ + seed_prefix(seed@.subrange(i as int, seed.len() as int)),
        decreases seed.len() - i,
    {
        proof {
            let rest = seed@.subrange(i as int, seed.len() as int);
            assert(rest.subrange(1, rest.len() as int) =~= seed@.subrange(
                i + 1,
                seed.len() as int,
            ));
            assert(out@ + (seq![seed@[i as int]] + seed_prefix(
                seed@.subrange(i + 1, seed.len() as int),
            )) =~= out@.push(seed@[i as int]) + seed_prefix(
                seed@.subrange(i + 1, seed.len() as int),
            ));
        }
        out.push(seed[i]);
        i = i + 1;
    }
    proof {
        assert(seed_prefix(seed@.subrange(i as int, seed.len() as int)) =~= Seq::<u8>::empty());
        assert(out@ + Seq::<u8>::empty() =~= out@);
    }
    out
}

} // verus!
