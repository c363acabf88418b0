//! The trading ledger of a wallet.

use crate::address::{address_from, lemma_address_from_bytes, Address};
use crate::bytes::{bytes_32, lemma_bytes_32, lemma_overwritten, overwritten, put_bytes, put_u32, put_u64, read_32, read_u32, read_u64, u32_at, u64_at, write_at};
use crate::constants::{CLIENT_ACCOUNT_SIZE};
use vstd::bytes::*;
use vstd::prelude::*;

verus! {

/// Per wallet and operator: the referral binding and the lifetime volumes of a client.
#[derive(Clone, Copy, Debug, PartialEq, Eq)]
pub struct ClientAccount {
    /// Type tag of the entry.
    pub tag: u32,
    /// Version of the operator with which the client trades.
    pub version: u32,
    /// Number of the client under its root ledger.
    pub id: u64,
    /// Wallet that owns the account.
    pub wallet: Address,
    /// Base currency moved by all trades of the client.
    pub all_time_base_crncy_volume: u64,
    /// Tokens moved by all trades of the client.
    pub all_time_tokens_volume: u64,
    /// Ledger slot of the last change.
    pub slot: u64,
    /// Time of the last change.
    pub time: u32,
    /// Tokens that the client minted first.
    pub tokens_created: u32,
    /// Time at which the referral window closes.
    pub ref_stop: u32,
    /// Trades of the client so far.
    pub all_time_trades_count: u32,
    /// Display name, padded with zero bytes.
    pub nickname: [u8; 32],
    /// Referrer bound at creation.
    pub ref_address: Address,
    /// Fees paid to the referrer so far.
    pub ref_paid: u64,
    /// Share of the fee that the client is spared while the window is open, as a binary64 pattern.
    pub ref_discount: u64,
    /// Share of the remaining fee that goes to the referrer, as a binary64 pattern.
    pub ref_ratio: u64,
}

impl ClientAccount {
    /// The stored form: every field in declaration order, numbers in little-endian order.
    pub open spec fn packed(self) -> Seq<u8> {
        spec_u32_to_le_bytes(self.tag)
            + spec_u32_to_le_bytes(self.version)
            + spec_u64_to_le_bytes(self.id)
            + self.wallet.bytes@
            + spec_u64_to_le_bytes(self.all_time_base_crncy_volume)
            + spec_u64_to_le_bytes(self.all_time_tokens_volume)
            + spec_u64_to_le_bytes(self.slot)
            + spec_u32_to_le_bytes(self.time)
            + spec_u32_to_le_bytes(self.tokens_created)
            + spec_u32_to_le_bytes(self.ref_stop)
            + spec_u32_to_le_bytes(self.all_time_trades_count)
            + self.nickname@
            + self.ref_address.bytes@
            + spec_u64_to_le_bytes(self.ref_paid)
            + spec_u64_to_le_bytes(self.ref_discount)
            + spec_u64_to_le_bytes(self.ref_ratio)
    }

    /// The entry that the first 176 bytes of `data` hold.
    pub open spec fn unpacked(data: Seq<u8>) -> ClientAccount {
        ClientAccount {
            tag: u32_at(data, 0),
            version: u32_at(data, 4),
            id: u64_at(data, 8),
            wallet: address_from(data.subrange(16, 48)),
            all_time_base_crncy_volume: u64_at(data, 48),
            all_time_tokens_volume: u64_at(data, 56),
            slot: u64_at(data, 64),
            time: u32_at(data, 72),
            tokens_created: u32_at(data, 76),
            ref_stop: u32_at(data, 80),
            all_time_trades_count: u32_at(data, 84),
            nickname: bytes_32(data.subrange(88, 120)),
            ref_address: address_from(data.subrange(120, 152)),
            ref_paid: u64_at(data, 152),
            ref_discount: u64_at(data, 160),
            ref_ratio: u64_at(data, 168),
        }
    }

    /// Writes the entry in its stored form.
    pub fn pack(&self) -> (r: Vec<u8>)
        ensures
            r@ == self.packed(),
            r.len() == CLIENT_ACCOUNT_SIZE,
    {
        proof {
            lemma_auto_spec_u32_to_from_le_bytes();
            lemma_auto_spec_u64_to_from_le_bytes();
            lemma_auto_spec_u128_to_from_le_bytes();
        }
        let mut out: Vec<u8> = Vec::new();
        put_u32(&mut out, self.tag);
        assert(out@ =~= spec_u32_to_le_bytes(self.tag));
        put_u32(&mut out, self.version);
        put_u64(&mut out, self.id);
        put_bytes(&mut out, self.wallet.bytes.as_slice());
        put_u64(&mut out, self.all_time_base_crncy_volume);
        put_u64(&mut out, self.all_time_tokens_volume);
        put_u64(&mut out, self.slot);
        put_u32(&mut out, self.time);
        put_u32(&mut out, self.tokens_created);
        put_u32(&mut out, self.ref_stop);
        put_u32(&mut out, self.all_time_trades_count);
        put_bytes(&mut out, self.nickname.as_slice());
        put_bytes(&mut out, self.ref_address.bytes.as_slice());
        put_u64(&mut out, self.ref_paid);
        put_u64(&mut out, self.ref_discount);
        put_u64(&mut out, self.ref_ratio);
        out
    }

    /// Reads an entry from the first 176 bytes of `data`; `None` where `data` is shorter.
    pub fn unpack(data: &[u8]) -> (r: Option<ClientAccount>)
        ensures
            r == if data.len() >= CLIENT_ACCOUNT_SIZE {
                Some(ClientAccount::unpacked(data@))
            } else {
                None
            },
    {
        if data.len() < CLIENT_ACCOUNT_SIZE {
            return None;
        }
        let tag = read_u32(data, 0);
        let version = read_u32(data, 4);
        let id = read_u64(data, 8);
        let wallet = Address { bytes: read_32(data, 16) };
        proof {
            lemma_address_from_bytes(wallet);
        }
        let all_time_base_crncy_volume = read_u64(data, 48);
        let all_time_tokens_volume = read_u64(data, 56);
        let slot = read_u64(data, 64);
        let time = read_u32(data, 72);
        let tokens_created = read_u32(data, 76);
        let ref_stop = read_u32(data, 80);
        let all_time_trades_count = read_u32(data, 84);
        let nickname = read_32(data, 88);
        let ref_address = Address { bytes: read_32(data, 120) };
        proof {
            lemma_address_from_bytes(ref_address);
        }
        let ref_paid = read_u64(data, 152);
        let ref_discount = read_u64(data, 160);
        let ref_ratio = read_u64(data, 168);
        Some(ClientAccount { tag, version, id, wallet, all_time_base_crncy_volume, all_time_tokens_volume, slot, time, tokens_created, ref_stop, all_time_trades_count, nickname, ref_address, ref_paid, ref_discount, ref_ratio })
    }

    /// What was written is read back: unpacking the stored form of an entry gives the entry.
    pub proof fn pack_then_unpack(self)
        ensures
            self.packed().len() == CLIENT_ACCOUNT_SIZE,
            ClientAccount::unpacked(self.packed()) == self,
    {
        lemma_auto_spec_u32_to_from_le_bytes();
        lemma_auto_spec_u64_to_from_le_bytes();
        lemma_auto_spec_u128_to_from_le_bytes();
        let data = self.packed();
        assert(data.subrange(0, 4) =~= spec_u32_to_le_bytes(self.tag));
        assert(data.subrange(4, 8) =~= spec_u32_to_le_bytes(self.version));
        assert(data.subrange(8, 16) =~= spec_u64_to_le_bytes(self.id));
        assert(data.subrange(16, 48) =~= self.wallet.bytes@);
        lemma_address_from_bytes(self.wallet);
        assert(data.subrange(48, 56) =~= spec_u64_to_le_bytes(self.all_time_base_crncy_volume));
        assert(data.subrange(56, 64) =~= spec_u64_to_le_bytes(self.all_time_tokens_volume));
        assert(data.subrange(64, 72) =~= spec_u64_to_le_bytes(self.slot));
        assert(data.subrange(72, 76) =~= spec_u32_to_le_bytes(self.time));
        assert(data.subrange(76, 80) =~= spec_u32_to_le_bytes(self.tokens_created));
        assert(data.subrange(80, 84) =~= spec_u32_to_le_bytes(self.ref_stop));
        assert(data.subrange(84, 88) =~= spec_u32_to_le_bytes(self.all_time_trades_count));
        assert(data.subrange(88, 120) =~= self.nickname@);
        lemma_bytes_32(self.nickname);
        assert(data.subrange(120, 152) =~= self.ref_address.bytes@);
        lemma_address_from_bytes(self.ref_address);
        assert(data.subrange(152, 160) =~= spec_u64_to_le_bytes(self.ref_paid));
        assert(data.subrange(160, 168) =~= spec_u64_to_le_bytes(self.ref_discount));
        assert(data.subrange(168, 176) =~= spec_u64_to_le_bytes(self.ref_ratio));
    }

    /// `data` with the entry stored from `offset` on.
    pub open spec fn stored_at(self, data: Seq<u8>, offset: int) -> Seq<u8> {
        overwritten(data, offset, self.packed())
    }

    /// What is stored is read back, and the bytes around the entry are what they were.
    pub proof fn store_then_unpack(self, data: Seq<u8>, offset: int)
        requires
            0 <= offset,
            offset + CLIENT_ACCOUNT_SIZE <= data.len(),
        ensures
            self.stored_at(data, offset).len() == data.len(),
            ClientAccount::unpacked(self.stored_at(data, offset).subrange(offset, offset + CLIENT_ACCOUNT_SIZE)) == self,
            offset == 0 ==> ClientAccount::unpacked(self.stored_at(data, offset)) == self,
            forall|from: int, to: int|
                0 <= from <= to <= data.len() && (to <= offset || offset + CLIENT_ACCOUNT_SIZE <= from)
                    ==> #[trigger] self.stored_at(data, offset).subrange(from, to)
                    == data.subrange(from, to),
    {
        self.pack_then_unpack();
        lemma_overwritten(data, offset, self.packed());
        if offset == 0 {
            let after = self.stored_at(data, 0);
            let packed = self.packed();
            assert(after.subrange(0, 176) == packed);
            assert(after.subrange(0, 4) =~= packed.subrange(0, 4));
            assert(after.subrange(4, 8) =~= packed.subrange(4, 8));
            assert(after.subrange(8, 16) =~= packed.subrange(8, 16));
            assert(after.subrange(16, 48) =~= packed.subrange(16, 48));
            assert(after.subrange(48, 56) =~= packed.subrange(48, 56));
            assert(after.subrange(56, 64) =~= packed.subrange(56, 64));
            assert(after.subrange(64, 72) =~= packed.subrange(64, 72));
            assert(after.subrange(72, 76) =~= packed.subrange(72, 76));
            assert(after.subrange(76, 80) =~= packed.subrange(76, 80));
            assert(after.subrange(80, 84) =~= packed.subrange(80, 84));
            assert(after.subrange(84, 88) =~= packed.subrange(84, 88));
            assert(after.subrange(88, 120) =~= packed.subrange(88, 120));
            assert(after.subrange(120, 152) =~= packed.subrange(120, 152));
            assert(after.subrange(152, 160) =~= packed.subrange(152, 160));
            assert(after.subrange(160, 168) =~= packed.subrange(160, 168));
            assert(after.subrange(168, 176) =~= packed.subrange(168, 176));
        }
    }

    /// Stores the entry in `data` from `offset` on, where it fits; returns whether it did.
    pub fn store_at(&self, data: &mut Vec<u8>, offset: usize) -> (done: bool)
        ensures
            done == (offset + CLIENT_ACCOUNT_SIZE <= old(data).len()),
            done ==> final(data)@ == self.stored_at(old(data)@, offset as int),
            !done ==> final(data)@ == old(data)@,
    {
        let bytes = self.pack();
        write_at(data, offset, bytes.as_slice())
    }
}

} // verus!
