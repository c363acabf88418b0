//! The audit trail: one structured record per new client, network and token and per trade.
//!
//! A record is a list of byte strings: a one-byte kind, then the fields, numbers in
//! little-endian order. The embedding program hands the list to the host's data log as it is.

use crate::address::Address;
use crate::bytes::{copy_bytes, rows};
use vstd::bytes::*;
use vstd::prelude::*;

verus! {

/// What a trade record says.
#[derive(Clone, Copy, Debug, PartialEq, Eq)]
pub struct TradeRecord {
    pub client_id: u64,
    pub order_id: u64,
    pub token_id: u64,
    pub network_id: u32,
    pub mint: Address,
    pub creator: Address,
    pub wallet: Address,
    pub address: [u8; 24],
    pub creation_time: u32,
    pub supply: u64,
    pub all_time_trades_count: u64,
    pub all_time_base_crncy_volume: u64,
    pub all_time_tokens_volume: u64,
    pub tokens_amount: u64,
    pub base_crncy_amount: u64,
    pub time: u32,
    pub slot: u64,
}

/// An audit event.
#[derive(Clone, Copy, Debug, PartialEq, Eq)]
pub enum Event {
    /// A client account was created.
    NewClient { client_id: u64, order_id: u64, wallet: Address, time: u32, slot: u64 },
    /// A network was added to a root ledger.
    NewNetwork { network_id: u32, descriptor: [u8; 32], time: u32, slot: u64 },
    /// A token was listed.
    NewToken { client_id: u64, order_id: u64, token_id: u64, network_id: u32, mint: Address, creator: Address, address: [u8; 24], time: u32, slot: u64 },
    /// Tokens were minted.
    Mint(TradeRecord),
    /// Tokens were burned.
    Burn(TradeRecord),
}

/// The fields of a trade record of the given kind, in the order in which they are logged.
pub open spec fn trade_fields(kind: u8, t: TradeRecord) -> Seq<Seq<u8>> {
    seq![
        seq![kind],
        spec_u64_to_le_bytes(t.client_id),
        spec_u64_to_le_bytes(t.order_id),
        spec_u64_to_le_bytes(t.token_id),
        spec_u32_to_le_bytes(t.network_id),
        t.mint.bytes@,
        t.creator.bytes@,
        t.address@,
        spec_u64_to_le_bytes(t.supply),
        spec_u32_to_le_bytes(t.creation_time),
        spec_u64_to_le_bytes(t.all_time_trades_count),
        spec_u64_to_le_bytes(t.all_time_base_crncy_volume),
        spec_u64_to_le_bytes(t.all_time_tokens_volume),
        spec_u64_to_le_bytes(t.tokens_amount),
        spec_u64_to_le_bytes(t.base_crncy_amount),
        spec_u32_to_le_bytes(t.time),
        spec_u64_to_le_bytes(t.slot),
        t.wallet.bytes@,
    ]
}

impl Event {
    /// The record that is logged for the event.
    pub open spec fn fields(self) -> Seq<Seq<u8>> {
        match self {
            Event::NewClient { client_id, order_id, wallet, time, slot } => seq![
                seq![1u8],
                spec_u64_to_le_bytes(client_id),
                spec_u64_to_le_bytes(order_id),
                wallet.bytes@,
                spec_u32_to_le_bytes(time),
                spec_u64_to_le_bytes(slot),
            ],
            Event::NewNetwork { network_id, descriptor, time, slot } => seq![
                seq![2u8],
                spec_u32_to_le_bytes(network_id),
                descriptor@,
                spec_u32_to_le_bytes(time),
                spec_u64_to_le_bytes(slot),
            ],
            Event::NewToken { client_id, order_id, token_id, network_id, mint, creator, address, time, slot } => seq![
                seq![3u8],
                spec_u64_to_le_bytes(client_id),
                spec_u64_to_le_bytes(order_id),
                spec_u64_to_le_bytes(token_id),
                spec_u32_to_le_bytes(network_id),
                mint.bytes@,
                creator.bytes@,
                address@,
                spec_u32_to_le_bytes(time),
                spec_u64_to_le_bytes(slot),
            ],
            Event::Mint(t) => trade_fields(4, t),
            Event::Burn(t) => trade_fields(5, t),
        }
    }

    /// Builds the record that is logged for the event.
    pub fn encode(&self) -> (r: Vec<Vec<u8>>)
        ensures
            rows(&r) == self.fields(),
    {
        match self {
            Event::NewClient { client_id, order_id, wallet, time, slot } => log_new_client(*client_id, *order_id, wallet, *time, *slot),
            Event::NewNetwork { network_id, descriptor, time, slot } => log_new_network(*network_id, descriptor.as_slice(), *time, *slot),
            Event::NewToken { client_id, order_id, token_id, network_id, mint, creator, address, time, slot } => log_new_token(*client_id, *order_id, *token_id, *network_id, mint, creator, address.as_slice(), *time, *slot),
            Event::Mint(t) => log_mint(
                t.client_id,
                t.order_id,
                t.token_id,
                t.network_id,
                &t.mint,
                &t.creator,
                &t.wallet,
                t.address.as_slice(),
                t.creation_time,
                t.supply,
                t.all_time_trades_count,
                t.all_time_base_crncy_volume,
                t.all_time_tokens_volume,
                t.tokens_amount,
                t.base_crncy_amount,
                t.time,
                t.slot,
            ),
            Event::Burn(t) => log_burn(
                t.client_id,
                t.order_id,
                t.token_id,
                t.network_id,
                &t.mint,
                &t.creator,
                &t.wallet,
                t.address.as_slice(),
                t.creation_time,
                t.supply,
                t.all_time_trades_count,
                t.all_time_base_crncy_volume,
                t.all_time_tokens_volume,
                t.tokens_amount,
                t.base_crncy_amount,
                t.time,
                t.slot,
            ),
        }
    }
}

fn kind_byte(kind: u8) -> (r: Vec<u8>)
    ensures
        r@ == seq![kind],
{
    let mut out: Vec<u8> = Vec::new();
    out.push(kind);
    assert(out@ =~= seq![kind]);
    out
}

/// Builds the record of a new client.
pub fn log_new_client(client_id: u64, order_id: u64, wallet: &Address, time: u32, slot: u64) -> (r: Vec<Vec<u8>>)
    ensures
        rows(&r) == seq![
            seq![1u8],
            spec_u64_to_le_bytes(client_id),
            spec_u64_to_le_bytes(order_id),
            wallet.bytes@,
            spec_u32_to_le_bytes(time),
            spec_u64_to_le_bytes(slot),
        ],
{
    let mut out: Vec<Vec<u8>> = Vec::new();
    out.push(kind_byte(1));
    out.push(u64_to_le_bytes(client_id));
    out.push(u64_to_le_bytes(order_id));
    out.push(wallet.to_vec());
    out.push(u32_to_le_bytes(time));
    out.push(u64_to_le_bytes(slot));
    assert(rows(&out) =~= seq![
        seq![1u8],
        spec_u64_to_le_bytes(client_id),
        spec_u64_to_le_bytes(order_id),
        wallet.bytes@,
        spec_u32_to_le_bytes(time),
        spec_u64_to_le_bytes(slot),
    ]);
    out
}

/// Builds the record of a new network.
pub fn log_new_network(network_id: u32, descriptor: &[u8], time: u32, slot: u64) -> (r: Vec<Vec<u8>>)
    ensures
        rows(&r) == seq![
            seq![2u8],
            spec_u32_to_le_bytes(network_id),
            descriptor@,
            spec_u32_to_le_bytes(time),
            spec_u64_to_le_bytes(slot),
        ],
{
    let mut out: Vec<Vec<u8>> = Vec::new();
    out.push(kind_byte(2));
    out.push(u32_to_le_bytes(network_id));
    out.push(copy_bytes(descriptor));
    out.push(u32_to_le_bytes(time));
    out.push(u64_to_le_bytes(slot));
    assert(rows(&out) =~= seq![
        seq![2u8],
        spec_u32_to_le_bytes(network_id),
        descriptor@,
        spec_u32_to_le_bytes(time),
        spec_u64_to_le_bytes(slot),
    ]);
    out
}

/// Builds the record of a new token.
pub fn log_new_token(client_id: u64, order_id: u64, token_id: u64, network_id: u32, mint: &Address, creator: &Address, address: &[u8], time: u32, slot: u64) -> (r: Vec<Vec<u8>>)
    ensures
        rows(&r) == seq![
            seq![3u8],
            spec_u64_to_le_bytes(client_id),
            spec_u64_to_le_bytes(order_id),
            spec_u64_to_le_bytes(token_id),
            spec_u32_to_le_bytes(network_id),
            mint.bytes@,
            creator.bytes@,
            address@,
            spec_u32_to_le_bytes(time),
            spec_u64_to_le_bytes(slot),
        ],
{
    let mut out: Vec<Vec<u8>> = Vec::new();
    out.push(kind_byte(3));
    out.push(u64_to_le_bytes(client_id));
    out.push(u64_to_le_bytes(order_id));
    out.push(u64_to_le_bytes(token_id));
    out.push(u32_to_le_bytes(network_id));
    out.push(mint.to_vec());
    out.push(creator.to_vec());
    out.push(copy_bytes(address));
    out.push(u32_to_le_bytes(time));
    out.push(u64_to_le_bytes(slot));
    assert(rows(&out) =~= seq![
        seq![3u8],
        spec_u64_to_le_bytes(client_id),
        spec_u64_to_le_bytes(order_id),
        spec_u64_to_le_bytes(token_id),
        spec_u32_to_le_bytes(network_id),
        mint.bytes@,
        creator.bytes@,
        address@,
        spec_u32_to_le_bytes(time),
        spec_u64_to_le_bytes(slot),
    ]);
    out
}

/// Builds the record of a mint.
pub fn log_mint(
    client_id: u64,
    order_id: u64,
    token_id: u64,
    network_id: u32,
    mint: &Address,
    creator: &Address,
    wallet: &Address,
    address: &[u8],
    creation_time: u32,
    supply: u64,
    all_time_trades_count: u64,
    all_time_base_crncy_volume: u64,
    all_time_tokens_volume: u64,
    tokens_amount: u64,
    base_crncy_amount: u64,
    time: u32,
    slot: u64,
) -> (r: Vec<Vec<u8>>)
    ensures
        rows(&r) == seq![
            seq![4u8],
            spec_u64_to_le_bytes(client_id),
            spec_u64_to_le_bytes(order_id),
            spec_u64_to_le_bytes(token_id),
            spec_u32_to_le_bytes(network_id),
            mint.bytes@,
            creator.bytes@,
            address@,
            spec_u64_to_le_bytes(supply),
            spec_u32_to_le_bytes(creation_time),
            spec_u64_to_le_bytes(all_time_trades_count),
            spec_u64_to_le_bytes(all_time_base_crncy_volume),
            spec_u64_to_le_bytes(all_time_tokens_volume),
            spec_u64_to_le_bytes(tokens_amount),
            spec_u64_to_le_bytes(base_crncy_amount),
            spec_u32_to_le_bytes(time),
            spec_u64_to_le_bytes(slot),
            wallet.bytes@,
        ],
{
    let mut out: Vec<Vec<u8>> = Vec::new();
    out.push(kind_byte(4));
    out.push(u64_to_le_bytes(client_id));
    out.push(u64_to_le_bytes(order_id));
    out.push(u64_to_le_bytes(token_id));
    out.push(u32_to_le_bytes(network_id));
    out.push(mint.to_vec());
    out.push(creator.to_vec());
    out.push(copy_bytes(address));
    out.push(u64_to_le_bytes(supply));
    out.push(u32_to_le_bytes(creation_time));
    out.push(u64_to_le_bytes(all_time_trades_count));
    out.push(u64_to_le_bytes(all_time_base_crncy_volume));
    out.push(u64_to_le_bytes(all_time_tokens_volume));
    out.push(u64_to_le_bytes(tokens_amount));
    out.push(u64_to_le_bytes(base_crncy_amount));
    out.push(u32_to_le_bytes(time));
    out.push(u64_to_le_bytes(slot));
    out.push(wallet.to_vec());
    assert(rows(&out) =~= seq![
        seq![4u8],
        spec_u64_to_le_bytes(client_id),
        spec_u64_to_le_bytes(order_id),
        spec_u64_to_le_bytes(token_id),
        spec_u32_to_le_bytes(network_id),
        mint.bytes@,
        creator.bytes@,
        address@,
        spec_u64_to_le_bytes(supply),
        spec_u32_to_le_bytes(creation_time),
        spec_u64_to_le_bytes(all_time_trades_count),
        spec_u64_to_le_bytes(all_time_base_crncy_volume),
        spec_u64_to_le_bytes(all_time_tokens_volume),
        spec_u64_to_le_bytes(tokens_amount),
        spec_u64_to_le_bytes(base_crncy_amount),
        spec_u32_to_le_bytes(time),
        spec_u64_to_le_bytes(slot),
        wallet.bytes@,
    ]);
    out
}

/// Builds the record of a burn.
pub fn log_burn(
    client_id: u64,
    order_id: u64,
    token_id: u64,
    network_id: u32,
    mint: &Address,
    creator: &Address,
    wallet: &Address,
    address: &[u8],
    creation_time: u32,
    supply: u64,
    all_time_trades_count: u64,
    all_time_base_crncy_volume: u64,
    all_time_tokens_volume: u64,
    tokens_amount: u64,
    base_crncy_amount: u64,
    time: u32,
    slot: u64,
) -> (r: Vec<Vec<u8>>)
    ensures
        rows(&r) == seq![
            seq![5u8],
            spec_u64_to_le_bytes(client_id),
            spec_u64_to_le_bytes(order_id),
            spec_u64_to_le_bytes(token_id),
            spec_u32_to_le_bytes(network_id),
            mint.bytes@,
            creator.bytes@,
            address@,
            spec_u64_to_le_bytes(supply),
            spec_u32_to_le_bytes(creation_time),
            spec_u64_to_le_bytes(all_time_trades_count),
            spec_u64_to_le_bytes(all_time_base_crncy_volume),
            spec_u64_to_le_bytes(all_time_tokens_volume),
            spec_u64_to_le_bytes(tokens_amount),
            spec_u64_to_le_bytes(base_crncy_amount),
            spec_u32_to_le_bytes(time),
            spec_u64_to_le_bytes(slot),
            wallet.bytes@,
        ],
{
    let mut out: Vec<Vec<u8>> = Vec::new();
    out.push(kind_byte(5));
    out.push(u64_to_le_bytes(client_id));
    out.push(u64_to_le_bytes(order_id));
    out.push(u64_to_le_bytes(token_id));
    out.push(u32_to_le_bytes(network_id));
    out.push(mint.to_vec());
    out.push(creator.to_vec());
    out.push(copy_bytes(address));
    out.push(u64_to_le_bytes(supply));
    out.push(u32_to_le_bytes(creation_time));
    out.push(u64_to_le_bytes(all_time_trades_count));
    out.push(u64_to_le_bytes(all_time_base_crncy_volume));
    out.push(u64_to_le_bytes(all_time_tokens_volume));
    out.push(u64_to_le_bytes(tokens_amount));
    out.push(u64_to_le_bytes(base_crncy_amount));
    out.push(u32_to_le_bytes(time));
    out.push(u64_to_le_bytes(slot));
    out.push(wallet.to_vec());
    assert(rows(&out) =~= seq![
        seq![5u8],
        spec_u64_to_le_bytes(client_id),
        spec_u64_to_le_bytes(order_id),
        spec_u64_to_le_bytes(token_id),
        spec_u32_to_le_bytes(network_id),
        mint.bytes@,
        creator.bytes@,
        address@,
        spec_u64_to_le_bytes(supply),
        spec_u32_to_le_bytes(creation_time),
        spec_u64_to_le_bytes(all_time_trades_count),
        spec_u64_to_le_bytes(all_time_base_crncy_volume),
        spec_u64_to_le_bytes(all_time_tokens_volume),
        spec_u64_to_le_bytes(tokens_amount),
        spec_u64_to_le_bytes(base_crncy_amount),
        spec_u32_to_le_bytes(time),
        spec_u64_to_le_bytes(slot),
        wallet.bytes@,
    ]);
    out
}

} // verus!
