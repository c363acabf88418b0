//! The root ledger of an operator and its network records.

use crate::address::{address_from, lemma_address_from_bytes, Address};
use crate::bytes::{bytes_32, bytes_64, lemma_bytes_32, lemma_bytes_64, lemma_overwritten, overwritten, put_bytes, put_u128, put_u32, put_u64, read_32, read_64, read_u128, read_u32, read_u64, u128_at, u32_at, u64_at, write_at};
use crate::constants::{NETWORK_RECORD_SIZE, ROOT_ACCOUNT_SIZE};
use vstd::bytes::*;
use vstd::prelude::*;

verus! {

/// One per operator version: curve parameters, fee schedule and running totals; network records follow it in the same account.
#[derive(Clone, Copy, Debug, PartialEq, Eq)]
pub struct RootAccount {
    /// Type tag of the entry.
    pub tag: u32,
    /// Version of the operator that owns the ledger.
    pub version: u32,
    /// Authority of the operator.
    pub admin: Address,
    /// Wallet to which the operator's fees are paid.
    pub fee_wallet: Address,
    /// Mint of the base currency.
    pub base_crncy_mint: Address,
    /// Reserve account that holds the base currency.
    pub base_crncy_program_address: Address,
    /// Client accounts created so far.
    pub clients_count: u64,
    /// Token records created so far.
    pub tokens_count: u64,
    /// Operator fees collected and not yet withdrawn.
    pub fees: u64,
    /// Number of network records that follow the header.
    pub networks_count: u32,
    /// Smallest units in one whole unit of the base currency.
    pub base_crncy_decs_factor: u32,
    /// Ledger slot of the last change.
    pub slot: u64,
    /// Time of the last change.
    pub time: u32,
    /// Decimal places of the base currency.
    pub decimals: u32,
    /// Tokens in circulation over all token records.
    pub supply: u64,
    /// Base currency held against the circulating tokens.
    pub tvl: u64,
    /// Events emitted so far.
    pub counter: u64,
    /// Base currency moved by all trades.
    pub all_time_base_crncy_volume: u128,
    /// Tokens moved by all trades.
    pub all_time_tokens_volume: u128,
    /// Holder fees collected and not yet withdrawn.
    pub holder_fees: u64,
    /// Price of the first token, as a binary64 pattern.
    pub init_price: u64,
    /// Supply that the curve never reaches.
    pub max_supply: u64,
    /// Share of a fee that stays with the operator tier, as a binary64 pattern.
    pub fee_ratio: u64,
    /// Share of a trade that is charged as fee, as a binary64 pattern.
    pub fee_rate: u64,
    /// Flat fee of a token's first mint in whole units, as a binary64 pattern.
    pub creation_fee: u64,
    /// Most networks the operator may add; zero for no limit.
    pub max_networks_count: u32,
    /// Time at which the ledger was created.
    pub creation_time: u32,
    /// Least fee of a trade in whole units, as a binary64 pattern.
    pub min_fee: u64,
    /// Name of the operator, padded with zero bytes.
    pub operator_name: [u8; 32],
    /// Seconds for which a new client's referral window stays open.
    pub ref_duration: u32,
    /// Display flags of the operator.
    pub mask: u32,
    /// Referral discount given to new clients, as a binary64 pattern.
    pub ref_discount: u64,
    /// Referral ratio given to new clients, as a binary64 pattern.
    pub ref_ratio: u64,
    /// URL prefix of the operator, padded with zero bytes.
    pub url_prefix: [u8; 32],
}

impl RootAccount {
    /// The stored form: every field in declaration order, numbers in little-endian order.
    pub open spec fn packed(self) -> Seq<u8> {
        spec_u32_to_le_bytes(self.tag)
            + spec_u32_to_le_bytes(self.version)
            + self.admin.bytes@
            + self.fee_wallet.bytes@
            + self.base_crncy_mint.bytes@
            + self.base_crncy_program_address.bytes@
            + spec_u64_to_le_bytes(self.clients_count)
            + spec_u64_to_le_bytes(self.tokens_count)
            + spec_u64_to_le_bytes(self.fees)
            + spec_u32_to_le_bytes(self.networks_count)
            + spec_u32_to_le_bytes(self.base_crncy_decs_factor)
            + spec_u64_to_le_bytes(self.slot)
            + spec_u32_to_le_bytes(self.time)
            + spec_u32_to_le_bytes(self.decimals)
            + spec_u64_to_le_bytes(self.supply)
            + spec_u64_to_le_bytes(self.tvl)
            + spec_u64_to_le_bytes(self.counter)
            + spec_u128_to_le_bytes(self.all_time_base_crncy_volume)
            + spec_u128_to_le_bytes(self.all_time_tokens_volume)
            + spec_u64_to_le_bytes(self.holder_fees)
            + spec_u64_to_le_bytes(self.init_price)
            + spec_u64_to_le_bytes(self.max_supply)
            + spec_u64_to_le_bytes(self.fee_ratio)
            + spec_u64_to_le_bytes(self.fee_rate)
            + spec_u64_to_le_bytes(self.creation_fee)
            + spec_u32_to_le_bytes(self.max_networks_count)
            + spec_u32_to_le_bytes(self.creation_time)
            + spec_u64_to_le_bytes(self.min_fee)
            + self.operator_name@
            + spec_u32_to_le_bytes(self.ref_duration)
            + spec_u32_to_le_bytes(self.mask)
            + spec_u64_to_le_bytes(self.ref_discount)
            + spec_u64_to_le_bytes(self.ref_ratio)
            + self.url_prefix@
    }

    /// The entry that the first 392 bytes of `data` hold.
    pub open spec fn unpacked(data: Seq<u8>) -> RootAccount {
        RootAccount {
            tag: u32_at(data, 0),
            version: u32_at(data, 4),
            admin: address_from(data.subrange(8, 40)),
            fee_wallet: address_from(data.subrange(40, 72)),
            base_crncy_mint: address_from(data.subrange(72, 104)),
            base_crncy_program_address: address_from(data.subrange(104, 136)),
            clients_count: u64_at(data, 136),
            tokens_count: u64_at(data, 144),
            fees: u64_at(data, 152),
            networks_count: u32_at(data, 160),
            base_crncy_decs_factor: u32_at(data, 164),
            slot: u64_at(data, 168),
            time: u32_at(data, 176),
            decimals: u32_at(data, 180),
            supply: u64_at(data, 184),
            tvl: u64_at(data, 192),
            counter: u64_at(data, 200),
            all_time_base_crncy_volume: u128_at(data, 208),
            all_time_tokens_volume: u128_at(data, 224),
            holder_fees: u64_at(data, 240),
            init_price: u64_at(data, 248),
            max_supply: u64_at(data, 256),
            fee_ratio: u64_at(data, 264),
            fee_rate: u64_at(data, 272),
            creation_fee: u64_at(data, 280),
            max_networks_count: u32_at(data, 288),
            creation_time: u32_at(data, 292),
            min_fee: u64_at(data, 296),
            operator_name: bytes_32(data.subrange(304, 336)),
            ref_duration: u32_at(data, 336),
            mask: u32_at(data, 340),
            ref_discount: u64_at(data, 344),
            ref_ratio: u64_at(data, 352),
            url_prefix: bytes_32(data.subrange(360, 392)),
        }
    }

    /// Writes the entry in its stored form.
    pub fn pack(&self) -> (r: Vec<u8>)
        ensures
            r@ == self.packed(),
            r.len() == ROOT_ACCOUNT_SIZE,
    {
        proof {
            lemma_auto_spec_u32_to_from_le_bytes();
            lemma_auto_spec_u64_to_from_le_bytes();
            lemma_auto_spec_u128_to_from_le_bytes();
        }
        let mut out: Vec<u8> = Vec::new();
        put_u32(&mut out, self.tag);
        assert(out@ =~= spec_u32_to_le_bytes(self.tag));
        put_u32(&mut out, self.version);
        put_bytes(&mut out, self.admin.bytes.as_slice());
        put_bytes(&mut out, self.fee_wallet.bytes.as_slice());
        put_bytes(&mut out, self.base_crncy_mint.bytes.as_slice());
        put_bytes(&mut out, self.base_crncy_program_address.bytes.as_slice());
        put_u64(&mut out, self.clients_count);
        put_u64(&mut out, self.tokens_count);
        put_u64(&mut out, self.fees);
        put_u32(&mut out, self.networks_count);
        put_u32(&mut out, self.base_crncy_decs_factor);
        put_u64(&mut out, self.slot);
        put_u32(&mut out, self.time);
        put_u32(&mut out, self.decimals);
        put_u64(&mut out, self.supply);
        put_u64(&mut out, self.tvl);
        put_u64(&mut out, self.counter);
        put_u128(&mut out, self.all_time_base_crncy_volume);
        put_u128(&mut out, self.all_time_tokens_volume);
        put_u64(&mut out, self.holder_fees);
        put_u64(&mut out, self.init_price);
        put_u64(&mut out, self.max_supply);
        put_u64(&mut out, self.fee_ratio);
        put_u64(&mut out, self.fee_rate);
        put_u64(&mut out, self.creation_fee);
        put_u32(&mut out, self.max_networks_count);
        put_u32(&mut out, self.creation_time);
        put_u64(&mut out, self.min_fee);
        put_bytes(&mut out, self.operator_name.as_slice());
        put_u32(&mut out, self.ref_duration);
        put_u32(&mut out, self.mask);
        put_u64(&mut out, self.ref_discount);
        put_u64(&mut out, self.ref_ratio);
        put_bytes(&mut out, self.url_prefix.as_slice());
        out
    }

    /// Reads an entry from the first 392 bytes of `data`; `None` where `data` is shorter.
    pub fn unpack(data: &[u8]) -> (r: Option<RootAccount>)
        ensures
            r == if data.len() >= ROOT_ACCOUNT_SIZE {
                Some(RootAccount::unpacked(data@))
            } else {
                None
            },
    {
        if data.len() < ROOT_ACCOUNT_SIZE {
            return None;
        }
        let tag = read_u32(data, 0);
        let version = read_u32(data, 4);
        let admin = Address { bytes: read_32(data, 8) };
        proof {
            lemma_address_from_bytes(admin);
        }
        let fee_wallet = Address { bytes: read_32(data, 40) };
        proof {
            lemma_address_from_bytes(fee_wallet);
        }
        let base_crncy_mint = Address { bytes: read_32(data, 72) };
        proof {
            lemma_address_from_bytes(base_crncy_mint);
        }
        let base_crncy_program_address = Address { bytes: read_32(data, 104) };
        proof {
            lemma_address_from_bytes(base_crncy_program_address);
        }
        let clients_count = read_u64(data, 136);
        let tokens_count = read_u64(data, 144);
        let fees = read_u64(data, 152);
        let networks_count = read_u32(data, 160);
        let base_crncy_decs_factor = read_u32(data, 164);
        let slot = read_u64(data, 168);
        let time = read_u32(data, 176);
        let decimals = read_u32(data, 180);
        let supply = read_u64(data, 184);
        let tvl = read_u64(data, 192);
        let counter = read_u64(data, 200);
        let all_time_base_crncy_volume = read_u128(data, 208);
        let all_time_tokens_volume = read_u128(data, 224);
        let holder_fees = read_u64(data, 240);
        let init_price = read_u64(data, 248);
        let max_supply = read_u64(data, 256);
        let fee_ratio = read_u64(data, 264);
        let fee_rate = read_u64(data, 272);
        let creation_fee = read_u64(data, 280);
        let max_networks_count = read_u32(data, 288);
        let creation_time = read_u32(data, 292);
        let min_fee = read_u64(data, 296);
        let operator_name = read_32(data, 304);
        let ref_duration = read_u32(data, 336);
        let mask = read_u32(data, 340);
        let ref_discount = read_u64(data, 344);
        let ref_ratio = read_u64(data, 352);
        let url_prefix = read_32(data, 360);
        Some(RootAccount { tag, version, admin, fee_wallet, base_crncy_mint, base_crncy_program_address, clients_count, tokens_count, fees, networks_count, base_crncy_decs_factor, slot, time, decimals, supply, tvl, counter, all_time_base_crncy_volume, all_time_tokens_volume, holder_fees, init_price, max_supply, fee_ratio, fee_rate, creation_fee, max_networks_count, creation_time, min_fee, operator_name, ref_duration, mask, ref_discount, ref_ratio, url_prefix })
    }

    /// What was written is read back: unpacking the stored form of an entry gives the entry.
    pub proof fn pack_then_unpack(self)
        ensures
            self.packed().len() == ROOT_ACCOUNT_SIZE,
            RootAccount::unpacked(self.packed()) == self,
    {
        lemma_auto_spec_u32_to_from_le_bytes();
        lemma_auto_spec_u64_to_from_le_bytes();
        lemma_auto_spec_u128_to_from_le_bytes();
        let data = self.packed();
        assert(data.subrange(0, 4) =~= spec_u32_to_le_bytes(self.tag));
        assert(data.subrange(4, 8) =~= spec_u32_to_le_bytes(self.version));
        assert(data.subrange(8, 40) =~= self.admin.bytes@);
        lemma_address_from_bytes(self.admin);
        assert(data.subrange(40, 72) =~= self.fee_wallet.bytes@);
        lemma_address_from_bytes(self.fee_wallet);
        assert(data.subrange(72, 104) =~= self.base_crncy_mint.bytes@);
        lemma_address_from_bytes(self.base_crncy_mint);
        assert(data.subrange(104, 136) =~= self.base_crncy_program_address.bytes@);
        lemma_address_from_bytes(self.base_crncy_program_address);
        assert(data.subrange(136, 144) =~= spec_u64_to_le_bytes(self.clients_count));
        assert(data.subrange(144, 152) =~= spec_u64_to_le_bytes(self.tokens_count));
        assert(data.subrange(152, 160) =~= spec_u64_to_le_bytes(self.fees));
        assert(data.subrange(160, 164) =~= spec_u32_to_le_bytes(self.networks_count));
        assert(data.subrange(164, 168) =~= spec_u32_to_le_bytes(self.base_crncy_decs_factor));
        assert(data.subrange(168, 176) =~= spec_u64_to_le_bytes(self.slot));
        assert(data.subrange(176, 180) =~= spec_u32_to_le_bytes(self.time));
        assert(data.subrange(180, 184) =~= spec_u32_to_le_bytes(self.decimals));
        assert(data.subrange(184, 192) =~= spec_u64_to_le_bytes(self.supply));
        assert(data.subrange(192, 200) =~= spec_u64_to_le_bytes(self.tvl));
        assert(data.subrange(200, 208) =~= spec_u64_to_le_bytes(self.counter));
        assert(data.subrange(208, 224) =~= spec_u128_to_le_bytes(self.all_time_base_crncy_volume));
        assert(data.subrange(224, 240) =~= spec_u128_to_le_bytes(self.all_time_tokens_volume));
        assert(data.subrange(240, 248) =~= spec_u64_to_le_bytes(self.holder_fees));
        assert(data.subrange(248, 256) =~= spec_u64_to_le_bytes(self.init_price));
        assert(data.subrange(256, 264) =~= spec_u64_to_le_bytes(self.max_supply));
        assert(data.subrange(264, 272) =~= spec_u64_to_le_bytes(self.fee_ratio));
        assert(data.subrange(272, 280) =~= spec_u64_to_le_bytes(self.fee_rate));
        assert(data.subrange(280, 288) =~= spec_u64_to_le_bytes(self.creation_fee));
        assert(data.subrange(288, 292) =~= spec_u32_to_le_bytes(self.max_networks_count));
        assert(data.subrange(292, 296) =~= spec_u32_to_le_bytes(self.creation_time));
        assert(data.subrange(296, 304) =~= spec_u64_to_le_bytes(self.min_fee));
        assert(data.subrange(304, 336) =~= self.operator_name@);
        lemma_bytes_32(self.operator_name);
        assert(data.subrange(336, 340) =~= spec_u32_to_le_bytes(self.ref_duration));
        assert(data.subrange(340, 344) =~= spec_u32_to_le_bytes(self.mask));
        assert(data.subrange(344, 352) =~= spec_u64_to_le_bytes(self.ref_discount));
        assert(data.subrange(352, 360) =~= spec_u64_to_le_bytes(self.ref_ratio));
        assert(data.subrange(360, 392) =~= self.url_prefix@);
        lemma_bytes_32(self.url_prefix);
    }

    /// `data` with the entry stored from `offset` on.
    pub open spec fn stored_at(self, data: Seq<u8>, offset: int) -> Seq<u8> {
        overwritten(data, offset, self.packed())
    }

    /// What is stored is read back, and the bytes around the entry are what they were.
    pub proof fn store_then_unpack(self, data: Seq<u8>, offset: int)
        requires
            0 <= offset,
            offset + ROOT_ACCOUNT_SIZE <= data.len(),
        ensures
            self.stored_at(data, offset).len() == data.len(),
            RootAccount::unpacked(self.stored_at(data, offset).subrange(offset, offset + ROOT_ACCOUNT_SIZE)) == self,
            offset == 0 ==> RootAccount::unpacked(self.stored_at(data, offset)) == self,
            forall|from: int, to: int|
                0 <= from <= to <= data.len() && (to <= offset || offset + ROOT_ACCOUNT_SIZE <= from)
                    ==> #[trigger] self.stored_at(data, offset).subrange(from, to)
                    == data.subrange(from, to),
    {
        self.pack_then_unpack();
        lemma_overwritten(data, offset, self.packed());
        if offset == 0 {
            let after = self.stored_at(data, 0);
            let packed = self.packed();
            assert(after.subrange(0, 392) == packed);
            assert(after.subrange(0, 4) =~= packed.subrange(0, 4));
            assert(after.subrange(4, 8) =~= packed.subrange(4, 8));
            assert(after.subrange(8, 40) =~= packed.subrange(8, 40));
            assert(after.subrange(40, 72) =~= packed.subrange(40, 72));
            assert(after.subrange(72, 104) =~= packed.subrange(72, 104));
            assert(after.subrange(104, 136) =~= packed.subrange(104, 136));
            assert(after.subrange(136, 144) =~= packed.subrange(136, 144));
            assert(after.subrange(144, 152) =~= packed.subrange(144, 152));
            assert(after.subrange(152, 160) =~= packed.subrange(152, 160));
            assert(after.subrange(160, 164) =~= packed.subrange(160, 164));
            assert(after.subrange(164, 168) =~= packed.subrange(164, 168));
            assert(after.subrange(168, 176) =~= packed.subrange(168, 176));
            assert(after.subrange(176, 180) =~= packed.subrange(176, 180));
            assert(after.subrange(180, 184) =~= packed.subrange(180, 184));
            assert(after.subrange(184, 192) =~= packed.subrange(184, 192));
            assert(after.subrange(192, 200) =~= packed.subrange(192, 200));
            assert(after.subrange(200, 208) =~= packed.subrange(200, 208));
            assert(after.subrange(208, 224) =~= packed.subrange(208, 224));
            assert(after.subrange(224, 240) =~= packed.subrange(224, 240));
            assert(after.subrange(240, 248) =~= packed.subrange(240, 248));
            assert(after.subrange(248, 256) =~= packed.subrange(248, 256));
            assert(after.subrange(256, 264) =~= packed.subrange(256, 264));
            assert(after.subrange(264, 272) =~= packed.subrange(264, 272));
            assert(after.subrange(272, 280) =~= packed.subrange(272, 280));
            assert(after.subrange(280, 288) =~= packed.subrange(280, 288));
            assert(after.subrange(288, 292) =~= packed.subrange(288, 292));
            assert(after.subrange(292, 296) =~= packed.subrange(292, 296));
            assert(after.subrange(296, 304) =~= packed.subrange(296, 304));
            assert(after.subrange(304, 336) =~= packed.subrange(304, 336));
            assert(after.subrange(336, 340) =~= packed.subrange(336, 340));
            assert(after.subrange(340, 344) =~= packed.subrange(340, 344));
            assert(after.subrange(344, 352) =~= packed.subrange(344, 352));
            assert(after.subrange(352, 360) =~= packed.subrange(352, 360));
            assert(after.subrange(360, 392) =~= packed.subrange(360, 392));
        }
    }

    /// Stores the entry in `data` from `offset` on, where it fits; returns whether it did.
    pub fn store_at(&self, data: &mut Vec<u8>, offset: usize) -> (done: bool)
        ensures
            done == (offset + ROOT_ACCOUNT_SIZE <= old(data).len()),
            done ==> final(data)@ == self.stored_at(old(data)@, offset as int),
            !done ==> final(data)@ == old(data)@,
    {
        let bytes = self.pack();
        write_at(data, offset, bytes.as_slice())
    }
}

/// A listing target under a root ledger.
#[derive(Clone, Copy, Debug, PartialEq, Eq)]
pub struct NetworkRecord {
    /// Most characters an external address may have.
    pub max_length: u64,
    /// Authority that may change the status of the network's tokens.
    pub validator: Address,
    /// Name of the network, padded with zero bytes.
    pub descriptor: [u8; 32],
    /// Characters that an external address may hold, ended by a zero byte.
    pub mask: [u8; 64],
}

impl NetworkRecord {
    /// The stored form: every field in declaration order, numbers in little-endian order.
    pub open spec fn packed(self) -> Seq<u8> {
        spec_u64_to_le_bytes(self.max_length)
            + self.validator.bytes@
            + self.descriptor@
            + self.mask@
    }

    /// The entry that the first 136 bytes of `data` hold.
    pub open spec fn unpacked(data: Seq<u8>) -> NetworkRecord {
        NetworkRecord {
            max_length: u64_at(data, 0),
            validator: address_from(data.subrange(8, 40)),
            descriptor: bytes_32(data.subrange(40, 72)),
            mask: bytes_64(data.subrange(72, 136)),
        }
    }

    /// Writes the entry in its stored form.
    pub fn pack(&self) -> (r: Vec<u8>)
        ensures
            r@ == self.packed(),
            r.len() == NETWORK_RECORD_SIZE,
    {
        proof {
            lemma_auto_spec_u32_to_from_le_bytes();
            lemma_auto_spec_u64_to_from_le_bytes();
            lemma_auto_spec_u128_to_from_le_bytes();
        }
        let mut out: Vec<u8> = Vec::new();
        put_u64(&mut out, self.max_length);
        assert(out@ =~= spec_u64_to_le_bytes(self.max_length));
        put_bytes(&mut out, self.validator.bytes.as_slice());
        put_bytes(&mut out, self.descriptor.as_slice());
        put_bytes(&mut out, self.mask.as_slice());
        out
    }

    /// Reads an entry from the first 136 bytes of `data`; `None` where `data` is shorter.
    pub fn unpack(data: &[u8]) -> (r: Option<NetworkRecord>)
        ensures
            r == if data.len() >= NETWORK_RECORD_SIZE {
                Some(NetworkRecord::unpacked(data@))
            } else {
                None
            },
    {
        if data.len() < NETWORK_RECORD_SIZE {
            return None;
        }
        let max_length = read_u64(data, 0);
        let validator = Address { bytes: read_32(data, 8) };
        proof {
            lemma_address_from_bytes(validator);
        }
        let descriptor = read_32(data, 40);
        let mask = read_64(data, 72);
        Some(NetworkRecord { max_length, validator, descriptor, mask })
    }

    /// What was written is read back: unpacking the stored form of an entry gives the entry.
    pub proof fn pack_then_unpack(self)
        ensures
            self.packed().len() == NETWORK_RECORD_SIZE,
            NetworkRecord::unpacked(self.packed()) == self,
    {
        lemma_auto_spec_u32_to_from_le_bytes();
        lemma_auto_spec_u64_to_from_le_bytes();
        lemma_auto_spec_u128_to_from_le_bytes();
        let data = self.packed();
        assert(data.subrange(0, 8) =~= spec_u64_to_le_bytes(self.max_length));
        assert(data.subrange(8, 40) =~= self.validator.bytes@);
        lemma_address_from_bytes(self.validator);
        assert(data.subrange(40, 72) =~= self.descriptor@);
        lemma_bytes_32(self.descriptor);
        assert(data.subrange(72, 136) =~= self.mask@);
        lemma_bytes_64(self.mask);
    }

    /// `data` with the entry stored from `offset` on.
    pub open spec fn stored_at(self, data: Seq<u8>, offset: int) -> Seq<u8> {
        overwritten(data, offset, self.packed())
    }

    /// What is stored is read back, and the bytes around the entry are what they were.
    pub proof fn store_then_unpack(self, data: Seq<u8>, offset: int)
        requires
            0 <= offset,
            offset + NETWORK_RECORD_SIZE <= data.len(),
        ensures
            self.stored_at(data, offset).len() == data.len(),
            NetworkRecord::unpacked(self.stored_at(data, offset).subrange(offset, offset + NETWORK_RECORD_SIZE)) == self,
            offset == 0 ==> NetworkRecord::unpacked(self.stored_at(data, offset)) == self,
            forall|from: int, to: int|
                0 <= from <= to <= data.len() && (to <= offset || offset + NETWORK_RECORD_SIZE <= from)
                    ==> #[trigger] self.stored_at(data, offset).subrange(from, to)
                    == data.subrange(from, to),
    {
        self.pack_then_unpack();
        lemma_overwritten(data, offset, self.packed());
        if offset == 0 {
            let after = self.stored_at(data, 0);
            let packed = self.packed();
            assert(after.subrange(0, 136) == packed);
            assert(after.subrange(0, 8) =~= packed.subrange(0, 8));
            assert(after.subrange(8, 40) =~= packed.subrange(8, 40));
            assert(after.subrange(40, 72) =~= packed.subrange(40, 72));
            assert(after.subrange(72, 136) =~= packed.subrange(72, 136));
        }
    }

    /// Stores the entry in `data` from `offset` on, where it fits; returns whether it did.
    pub fn store_at(&self, data: &mut Vec<u8>, offset: usize) -> (done: bool)
        ensures
            done == (offset + NETWORK_RECORD_SIZE <= old(data).len()),
            done ==> final(data)@ == self.stored_at(old(data)@, offset as int),
            !done ==> final(data)@ == old(data)@,
    {
        let bytes = self.pack();
        write_at(data, offset, bytes.as_slice())
    }
}

} // verus!
