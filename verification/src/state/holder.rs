//! The holder registry and its operator records.

use crate::address::{address_from, lemma_address_from_bytes, Address};
use crate::bytes::{bytes_32, lemma_bytes_32, lemma_overwritten, overwritten, put_bytes, put_u32, put_u64, read_32, read_u32, read_u64, u32_at, u64_at, write_at};
use crate::constants::{HOLDER_ACCOUNT_SIZE, OPERATOR_RECORD_SIZE};
use vstd::bytes::*;
use vstd::prelude::*;

verus! {

/// The deployment-wide admin record; operator records follow it in the same account.
#[derive(Clone, Copy, Debug, PartialEq, Eq)]
pub struct HolderAccount {
    /// Type tag of the entry.
    pub tag: u32,
    /// Always the version that belongs to no operator.
    pub version: u32,
    /// Wallet to which the holder's fees are paid.
    pub wallet: Address,
    /// Ledger slot of the last change.
    pub slot: u64,
    /// Time of the last change.
    pub time: u32,
    /// Number of operator records that follow the header.
    pub operators_count: u32,
}

impl HolderAccount {
    /// The stored form: every field in declaration order, numbers in little-endian order.
    pub open spec fn packed(self) -> Seq<u8> {
        spec_u32_to_le_bytes(self.tag)
            + spec_u32_to_le_bytes(self.version)
            + self.wallet.bytes@
            + spec_u64_to_le_bytes(self.slot)
            + spec_u32_to_le_bytes(self.time)
            + spec_u32_to_le_bytes(self.operators_count)
    }

    /// The entry that the first 56 bytes of `data` hold.
    pub open spec fn unpacked(data: Seq<u8>) -> HolderAccount {
        HolderAccount {
            tag: u32_at(data, 0),
            version: u32_at(data, 4),
            wallet: address_from(data.subrange(8, 40)),
            slot: u64_at(data, 40),
            time: u32_at(data, 48),
            operators_count: u32_at(data, 52),
        }
    }

    /// Writes the entry in its stored form.
    pub fn pack(&self) -> (r: Vec<u8>)
        ensures
            r@ == self.packed(),
            r.len() == HOLDER_ACCOUNT_SIZE,
    {
        proof {
            lemma_auto_spec_u32_to_from_le_bytes();
            lemma_auto_spec_u64_to_from_le_bytes();
            lemma_auto_spec_u128_to_from_le_bytes();
        }
        let mut out: Vec<u8> = Vec::new();
        put_u32(&mut out, self.tag);
        assert(out@ =~= spec_u32_to_le_bytes(self.tag));
        put_u32(&mut out, self.version);
        put_bytes(&mut out, self.wallet.bytes.as_slice());
        put_u64(&mut out, self.slot);
        put_u32(&mut out, self.time);
        put_u32(&mut out, self.operators_count);
        out
    }

    /// Reads an entry from the first 56 bytes of `data`; `None` where `data` is shorter.
    pub fn unpack(data: &[u8]) -> (r: Option<HolderAccount>)
        ensures
            r == if data.len() >= HOLDER_ACCOUNT_SIZE {
                Some(HolderAccount::unpacked(data@))
            } else {
                None
            },
    {
        if data.len() < HOLDER_ACCOUNT_SIZE {
            return None;
        }
        let tag = read_u32(data, 0);
        let version = read_u32(data, 4);
        let wallet = Address { bytes: read_32(data, 8) };
        proof {
            lemma_address_from_bytes(wallet);
        }
        let slot = read_u64(data, 40);
        let time = read_u32(data, 48);
        let operators_count = read_u32(data, 52);
        Some(HolderAccount { tag, version, wallet, slot, time, operators_count })
    }

    /// What was written is read back: unpacking the stored form of an entry gives the entry.
    pub proof fn pack_then_unpack(self)
        ensures
            self.packed().len() == HOLDER_ACCOUNT_SIZE,
            HolderAccount::unpacked(self.packed()) == self,
    {
        lemma_auto_spec_u32_to_from_le_bytes();
        lemma_auto_spec_u64_to_from_le_bytes();
        lemma_auto_spec_u128_to_from_le_bytes();
        let data = self.packed();
        assert(data.subrange(0, 4) =~= spec_u32_to_le_bytes(self.tag));
        assert(data.subrange(4, 8) =~= spec_u32_to_le_bytes(self.version));
        assert(data.subrange(8, 40) =~= self.wallet.bytes@);
        lemma_address_from_bytes(self.wallet);
        assert(data.subrange(40, 48) =~= spec_u64_to_le_bytes(self.slot));
        assert(data.subrange(48, 52) =~= spec_u32_to_le_bytes(self.time));
        assert(data.subrange(52, 56) =~= spec_u32_to_le_bytes(self.operators_count));
    }

    /// `data` with the entry stored from `offset` on.
    pub open spec fn stored_at(self, data: Seq<u8>, offset: int) -> Seq<u8> {
        overwritten(data, offset, self.packed())
    }

    /// What is stored is read back, and the bytes around the entry are what they were.
    pub proof fn store_then_unpack(self, data: Seq<u8>, offset: int)
        requires
            0 <= offset,
            offset + HOLDER_ACCOUNT_SIZE <= data.len(),
        ensures
            self.stored_at(data, offset).len() == data.len(),
            HolderAccount::unpacked(self.stored_at(data, offset).subrange(offset, offset + HOLDER_ACCOUNT_SIZE)) == self,
            offset == 0 ==> HolderAccount::unpacked(self.stored_at(data, offset)) == self,
            forall|from: int, to: int|
                0 <= from <= to <= data.len() && (to <= offset || offset + HOLDER_ACCOUNT_SIZE <= from)
                    ==> #[trigger] self.stored_at(data, offset).subrange(from, to)
                    == data.subrange(from, to),
    {
        self.pack_then_unpack();
        lemma_overwritten(data, offset, self.packed());
        if offset == 0 {
            let after = self.stored_at(data, 0);
            let packed = self.packed();
            assert(after.subrange(0, 56) == packed);
            assert(after.subrange(0, 4) =~= packed.subrange(0, 4));
            assert(after.subrange(4, 8) =~= packed.subrange(4, 8));
            assert(after.subrange(8, 40) =~= packed.subrange(8, 40));
            assert(after.subrange(40, 48) =~= packed.subrange(40, 48));
            assert(after.subrange(48, 52) =~= packed.subrange(48, 52));
            assert(after.subrange(52, 56) =~= packed.subrange(52, 56));
        }
    }

    /// Stores the entry in `data` from `offset` on, where it fits; returns whether it did.
    pub fn store_at(&self, data: &mut Vec<u8>, offset: usize) -> (done: bool)
        ensures
            done == (offset + HOLDER_ACCOUNT_SIZE <= old(data).len()),
            done ==> final(data)@ == self.stored_at(old(data)@, offset as int),
            !done ==> final(data)@ == old(data)@,
    {
        let bytes = self.pack();
        write_at(data, offset, bytes.as_slice())
    }
}

/// A tenant slot of the holder registry.
#[derive(Clone, Copy, Debug, PartialEq, Eq)]
pub struct OperatorRecord {
    /// Authority that may create the operator's root ledger.
    pub operator_address: Address,
    /// Version id of the operator.
    pub version: u32,
    /// Most networks the operator may add; zero for no limit.
    pub max_networks_count: u32,
    /// Name of the operator, padded with zero bytes.
    pub operator_name: [u8; 32],
}

impl OperatorRecord {
    /// The stored form: every field in declaration order, numbers in little-endian order.
    pub open spec fn packed(self) -> Seq<u8> {
        self.operator_address.bytes@
            + spec_u32_to_le_bytes(self.version)
            + spec_u32_to_le_bytes(self.max_networks_count)
            + self.operator_name@
    }

    /// The entry that the first 72 bytes of `data` hold.
    pub open spec fn unpacked(data: Seq<u8>) -> OperatorRecord {
        OperatorRecord {
            operator_address: address_from(data.subrange(0, 32)),
            version: u32_at(data, 32),
            max_networks_count: u32_at(data, 36),
            operator_name: bytes_32(data.subrange(40, 72)),
        }
    }

    /// Writes the entry in its stored form.
    pub fn pack(&self) -> (r: Vec<u8>)
        ensures
            r@ == self.packed(),
            r.len() == OPERATOR_RECORD_SIZE,
    {
        proof {
            lemma_auto_spec_u32_to_from_le_bytes();
            lemma_auto_spec_u64_to_from_le_bytes();
            lemma_auto_spec_u128_to_from_le_bytes();
        }
        let mut out: Vec<u8> = Vec::new();
        put_bytes(&mut out, self.operator_address.bytes.as_slice());
        assert(out@ =~= self.operator_address.bytes@);
        put_u32(&mut out, self.version);
        put_u32(&mut out, self.max_networks_count);
        put_bytes(&mut out, self.operator_name.as_slice());
        out
    }

    /// Reads an entry from the first 72 bytes of `data`; `None` where `data` is shorter.
    pub fn unpack(data: &[u8]) -> (r: Option<OperatorRecord>)
        ensures
            r == if data.len() >= OPERATOR_RECORD_SIZE {
                Some(OperatorRecord::unpacked(data@))
            } else {
                None
            },
    {
        if data.len() < OPERATOR_RECORD_SIZE {
            return None;
        }
        let operator_address = Address { bytes: read_32(data, 0) };
        proof {
            lemma_address_from_bytes(operator_address);
        }
        let version = read_u32(data, 32);
        let max_networks_count = read_u32(data, 36);
        let operator_name = read_32(data, 40);
        Some(OperatorRecord { operator_address, version, max_networks_count, operator_name })
    }

    /// What was written is read back: unpacking the stored form of an entry gives the entry.
    pub proof fn pack_then_unpack(self)
        ensures
            self.packed().len() == OPERATOR_RECORD_SIZE,
            OperatorRecord::unpacked(self.packed()) == self,
    {
        lemma_auto_spec_u32_to_from_le_bytes();
        lemma_auto_spec_u64_to_from_le_bytes();
        lemma_auto_spec_u128_to_from_le_bytes();
        let data = self.packed();
        assert(data.subrange(0, 32) =~= self.operator_address.bytes@);
        lemma_address_from_bytes(self.operator_address);
        assert(data.subrange(32, 36) =~= spec_u32_to_le_bytes(self.version));
        assert(data.subrange(36, 40) =~= spec_u32_to_le_bytes(self.max_networks_count));
        assert(data.subrange(40, 72) =~= self.operator_name@);
        lemma_bytes_32(self.operator_name);
    }

    /// `data` with the entry stored from `offset` on.
    pub open spec fn stored_at(self, data: Seq<u8>, offset: int) -> Seq<u8> {
        overwritten(data, offset, self.packed())
    }

    /// What is stored is read back, and the bytes around the entry are what they were.
    pub proof fn store_then_unpack(self, data: Seq<u8>, offset: int)
        requires
            0 <= offset,
            offset + OPERATOR_RECORD_SIZE <= data.len(),
        ensures
            self.stored_at(data, offset).len() == data.len(),
            OperatorRecord::unpacked(self.stored_at(data, offset).subrange(offset, offset + OPERATOR_RECORD_SIZE)) == self,
            offset == 0 ==> OperatorRecord::unpacked(self.stored_at(data, offset)) == self,
            forall|from: int, to: int|
                0 <= from <= to <= data.len() && (to <= offset || offset + OPERATOR_RECORD_SIZE <= from)
                    ==> #[trigger] self.stored_at(data, offset).subrange(from, to)
                    == data.subrange(from, to),
    {
        self.pack_then_unpack();
        lemma_overwritten(data, offset, self.packed());
        if offset == 0 {
            let after = self.stored_at(data, 0);
            let packed = self.packed();
            assert(after.subrange(0, 72) == packed);
            assert(after.subrange(0, 32) =~= packed.subrange(0, 32));
            assert(after.subrange(32, 36) =~= packed.subrange(32, 36));
            assert(after.subrange(36, 40) =~= packed.subrange(36, 40));
            assert(after.subrange(40, 72) =~= packed.subrange(40, 72));
        }
    }

    /// Stores the entry in `data` from `offset` on, where it fits; returns whether it did.
    pub fn store_at(&self, data: &mut Vec<u8>, offset: usize) -> (done: bool)
        ensures
            done == (offset + OPERATOR_RECORD_SIZE <= old(data).len()),
            done ==> final(data)@ == self.stored_at(old(data)@, offset as int),
            !done ==> final(data)@ == old(data)@,
    {
        let bytes = self.pack();
        write_at(data, offset, bytes.as_slice())
    }
}

} // verus!
