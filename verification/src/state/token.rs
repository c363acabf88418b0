//! The record of a listed token.

use crate::address::{address_from, lemma_address_from_bytes, Address};
use crate::bytes::{bytes_24, lemma_bytes_24, lemma_overwritten, overwritten, put_bytes, put_u128, put_u32, put_u64, read_24, read_32, read_u128, read_u32, read_u64, u128_at, u32_at, u64_at, write_at};
use crate::constants::{TOKEN_ACCOUNT_SIZE};
use vstd::bytes::*;
use vstd::prelude::*;

verus! {

/// Per listed token: its mint, creator, network, supply, status and lifetime volumes.
#[derive(Clone, Copy, Debug, PartialEq, Eq)]
pub struct TokenAccount {
    /// Type tag of the entry.
    pub tag: u32,
    /// Version of the operator under which the token is listed.
    pub version: u32,
    /// Number of the token under its root ledger.
    pub id: u64,
    /// Mint of the token at the external token service.
    pub mint: Address,
    /// Custody account into which burned tokens are moved.
    pub program_address: Address,
    /// Wallet that minted the token first.
    pub creator: Address,
    /// Time of the first mint.
    pub creation_time: u32,
    /// Time of the last change.
    pub time: u32,
    /// Tokens in circulation.
    pub supply: u64,
    /// External address under which the token is listed, padded with zero bytes.
    pub address: [u8; 24],
    /// Network on which the external address lives.
    pub network: u32,
    /// Unused.
    pub reserved: u32,
    /// Ledger slot of the last change.
    pub slot: u64,
    /// Trades of the token so far.
    pub all_time_trades_count: u64,
    /// Base currency moved by all trades of the token.
    pub all_time_base_crncy_volume: u128,
    /// Tokens moved by all trades of the token.
    pub all_time_tokens_volume: u128,
    /// Validation status: not checked, verified or not verified.
    pub status: u64,
}

impl TokenAccount {
    /// The stored form: every field in declaration order, numbers in little-endian order.
    pub open spec fn packed(self) -> Seq<u8> {
        spec_u32_to_le_bytes(self.tag)
            + spec_u32_to_le_bytes(self.version)
            + spec_u64_to_le_bytes(self.id)
            + self.mint.bytes@
            + self.program_address.bytes@
            + self.creator.bytes@
            + spec_u32_to_le_bytes(self.creation_time)
            + spec_u32_to_le_bytes(self.time)
            + spec_u64_to_le_bytes(self.supply)
            + self.address@
            + spec_u32_to_le_bytes(self.network)
            + spec_u32_to_le_bytes(self.reserved)
            + spec_u64_to_le_bytes(self.slot)
            + spec_u64_to_le_bytes(self.all_time_trades_count)
            + spec_u128_to_le_bytes(self.all_time_base_crncy_volume)
            + spec_u128_to_le_bytes(self.all_time_tokens_volume)
            + spec_u64_to_le_bytes(self.status)
    }

    /// The entry that the first 216 bytes of `data` hold.
    pub open spec fn unpacked(data: Seq<u8>) -> TokenAccount {
        TokenAccount {
            tag: u32_at(data, 0),
            version: u32_at(data, 4),
            id: u64_at(data, 8),
            mint: address_from(data.subrange(16, 48)),
            program_address: address_from(data.subrange(48, 80)),
            creator: address_from(data.subrange(80, 112)),
            creation_time: u32_at(data, 112),
            time: u32_at(data, 116),
            supply: u64_at(data, 120),
            address: bytes_24(data.subrange(128, 152)),
            network: u32_at(data, 152),
            reserved: u32_at(data, 156),
            slot: u64_at(data, 160),
            all_time_trades_count: u64_at(data, 168),
            all_time_base_crncy_volume: u128_at(data, 176),
            all_time_tokens_volume: u128_at(data, 192),
            status: u64_at(data, 208),
        }
    }

    /// Writes the entry in its stored form.
    pub fn pack(&self) -> (r: Vec<u8>)
        ensures
            r@ == self.packed(),
            r.len() == TOKEN_ACCOUNT_SIZE,
    {
        proof {
            lemma_auto_spec_u32_to_from_le_bytes();
            lemma_auto_spec_u64_to_from_le_bytes();
            lemma_auto_spec_u128_to_from_le_bytes();
        }
        let mut out: Vec<u8> = Vec::new();
        put_u32(&mut out, self.tag);
        assert(out@ =~= spec_u32_to_le_bytes(self.tag));
        put_u32(&mut out, self.version);
        put_u64(&mut out, self.id);
        put_bytes(&mut out, self.mint.bytes.as_slice());
        put_bytes(&mut out, self.program_address.bytes.as_slice());
        put_bytes(&mut out, self.creator.bytes.as_slice());
        put_u32(&mut out, self.creation_time);
        put_u32(&mut out, self.time);
        put_u64(&mut out, self.supply);
        put_bytes(&mut out, self.address.as_slice());
        put_u32(&mut out, self.network);
        put_u32(&mut out, self.reserved);
        put_u64(&mut out, self.slot);
        put_u64(&mut out, self.all_time_trades_count);
        put_u128(&mut out, self.all_time_base_crncy_volume);
        put_u128(&mut out, self.all_time_tokens_volume);
        put_u64(&mut out, self.status);
        out
    }

    /// Reads an entry from the first 216 bytes of `data`; `None` where `data` is shorter.
    pub fn unpack(data: &[u8]) -> (r: Option<TokenAccount>)
        ensures
            r == if data.len() >= TOKEN_ACCOUNT_SIZE {
                Some(TokenAccount::unpacked(data@))
            } else {
                None
            },
    {
        if data.len() < TOKEN_ACCOUNT_SIZE {
            return None;
        }
        let tag = read_u32(data, 0);
        let version = read_u32(data, 4);
        let id = read_u64(data, 8);
        let mint = Address { bytes: read_32(data, 16) };
        proof {
            lemma_address_from_bytes(mint);
        }
        let program_address = Address { bytes: read_32(data, 48) };
        proof {
            lemma_address_from_bytes(program_address);
        }
        let creator = Address { bytes: read_32(data, 80) };
        proof {
            lemma_address_from_bytes(creator);
        }
        let creation_time = read_u32(data, 112);
        let time = read_u32(data, 116);
        let supply = read_u64(data, 120);
        let address = read_24(data, 128);
        let network = read_u32(data, 152);
        let reserved = read_u32(data, 156);
        let slot = read_u64(data, 160);
        let all_time_trades_count = read_u64(data, 168);
        let all_time_base_crncy_volume = read_u128(data, 176);
        let all_time_tokens_volume = read_u128(data, 192);
        let status = read_u64(data, 208);
        Some(TokenAccount { tag, version, id, mint, program_address, creator, creation_time, time, supply, address, network, reserved, slot, all_time_trades_count, all_time_base_crncy_volume, all_time_tokens_volume, status })
    }

    /// What was written is read back: unpacking the stored form of an entry gives the entry.
    pub proof fn pack_then_unpack(self)
        ensures
            self.packed().len() == TOKEN_ACCOUNT_SIZE,
            TokenAccount::unpacked(self.packed()) == self,
    {
        lemma_auto_spec_u32_to_from_le_bytes();
        lemma_auto_spec_u64_to_from_le_bytes();
        lemma_auto_spec_u128_to_from_le_bytes();
        let data = self.packed();
        assert(data.subrange(0, 4) =~= spec_u32_to_le_bytes(self.tag));
        assert(data.subrange(4, 8) =~= spec_u32_to_le_bytes(self.version));
        assert(data.subrange(8, 16) =~= spec_u64_to_le_bytes(self.id));
        assert(data.subrange(16, 48) =~= self.mint.bytes@);
        lemma_address_from_bytes(self.mint);
        assert(data.subrange(48, 80) =~= self.program_address.bytes@);
        lemma_address_from_bytes(self.program_address);
        assert(data.subrange(80, 112) =~= self.creator.bytes@);
        lemma_address_from_bytes(self.creator);
        assert(data.subrange(112, 116) =~= spec_u32_to_le_bytes(self.creation_time));
        assert(data.subrange(116, 120) =~= spec_u32_to_le_bytes(self.time));
        assert(data.subrange(120, 128) =~= spec_u64_to_le_bytes(self.supply));
        assert(data.subrange(128, 152) =~= self.address@);
        lemma_bytes_24(self.address);
        assert(data.subrange(152, 156) =~= spec_u32_to_le_bytes(self.network));
        assert(data.subrange(156, 160) =~= spec_u32_to_le_bytes(self.reserved));
        assert(data.subrange(160, 168) =~= spec_u64_to_le_bytes(self.slot));
        assert(data.subrange(168, 176) =~= spec_u64_to_le_bytes(self.all_time_trades_count));
        assert(data.subrange(176, 192) =~= spec_u128_to_le_bytes(self.all_time_base_crncy_volume));
        assert(data.subrange(192, 208) =~= spec_u128_to_le_bytes(self.all_time_tokens_volume));
        assert(data.subrange(208, 216) =~= spec_u64_to_le_bytes(self.status));
    }

    /// `data` with the entry stored from `offset` on.
    pub open spec fn stored_at(self, data: Seq<u8>, offset: int) -> Seq<u8> {
        overwritten(data, offset, self.packed())
    }

    /// What is stored is read back, and the bytes around the entry are what they were.
    pub proof fn store_then_unpack(self, data: Seq<u8>, offset: int)
        requires
            0 <= offset,
            offset + TOKEN_ACCOUNT_SIZE <= data.len(),
        ensures
            self.stored_at(data, offset).len() == data.len(),
            TokenAccount::unpacked(self.stored_at(data, offset).subrange(offset, offset + TOKEN_ACCOUNT_SIZE)) == self,
            offset == 0 ==> TokenAccount::unpacked(self.stored_at(data, offset)) == self,
            forall|from: int, to: int|
                0 <= from <= to <= data.len() && (to <= offset || offset + TOKEN_ACCOUNT_SIZE <= from)
                    ==> #[trigger] self.stored_at(data, offset).subrange(from, to)
                    == data.subrange(from, to),
    {
        self.pack_then_unpack();
        lemma_overwritten(data, offset, self.packed());
        if offset == 0 {
            let after = self.stored_at(data, 0);
            let packed = self.packed();
            assert(after.subrange(0, 216) == packed);
            assert(after.subrange(0, 4) =~= packed.subrange(0, 4));
            assert(after.subrange(4, 8) =~= packed.subrange(4, 8));
            assert(after.subrange(8, 16) =~= packed.subrange(8, 16));
            assert(after.subrange(16, 48) =~= packed.subrange(16, 48));
            assert(after.subrange(48, 80) =~= packed.subrange(48, 80));
            assert(after.subrange(80, 112) =~= packed.subrange(80, 112));
            assert(after.subrange(112, 116) =~= packed.subrange(112, 116));
            assert(after.subrange(116, 120) =~= packed.subrange(116, 120));
            assert(after.subrange(120, 128) =~= packed.subrange(120, 128));
            assert(after.subrange(128, 152) =~= packed.subrange(128, 152));
            assert(after.subrange(152, 156) =~= packed.subrange(152, 156));
            assert(after.subrange(156, 160) =~= packed.subrange(156, 160));
            assert(after.subrange(160, 168) =~= packed.subrange(160, 168));
            assert(after.subrange(168, 176) =~= packed.subrange(168, 176));
            assert(after.subrange(176, 192) =~= packed.subrange(176, 192));
            assert(after.subrange(192, 208) =~= packed.subrange(192, 208));
            assert(after.subrange(208, 216) =~= packed.subrange(208, 216));
        }
    }

    /// Stores the entry in `data` from `offset` on, where it fits; returns whether it did.
    pub fn store_at(&self, data: &mut Vec<u8>, offset: usize) -> (done: bool)
        ensures
            done == (offset + TOKEN_ACCOUNT_SIZE <= old(data).len()),
            done ==> final(data)@ == self.stored_at(old(data)@, offset as int),
            !done ==> final(data)@ == old(data)@,
    {
        let bytes = self.pack();
        write_at(data, offset, bytes.as_slice())
    }
}

} // verus!
