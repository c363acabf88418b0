//! Little-endian fields at fixed offsets of a byte string.

use vstd::bytes::*;
use vstd::prelude::*;
use vstd::slice::slice_subrange;

verus! {

/// The 32-bit little-endian number at `offset`.
pub open spec fn u32_at(data: Seq<u8>, offset: int) -> u32 {
    spec_u32_from_le_bytes(data.subrange(offset, offset + 4))
}

/// The 64-bit little-endian number at `offset`.
pub open spec fn u64_at(data: Seq<u8>, offset: int) -> u64 {
    spec_u64_from_le_bytes(data.subrange(offset, offset + 8))
}

/// The 128-bit little-endian number at `offset`.
pub open spec fn u128_at(data: Seq<u8>, offset: int) -> u128 {
    spec_u128_from_le_bytes(data.subrange(offset, offset + 16))
}

/// Reads the 32-bit little-endian number at `offset`.
pub fn read_u32(data: &[u8], offset: usize) -> (r: u32)
    requires
        offset + 4 <= data.len(),
    ensures
        r == u32_at(data@, offset as int),
{
    u32_from_le_bytes(slice_subrange(data, offset, offset + 4))
}

/// Reads the 64-bit little-endian number at `offset`.
pub fn read_u64(data: &[u8], offset: usize) -> (r: u64)
    requires
        offset + 8 <= data.len(),
    ensures
        r == u64_at(data@, offset as int),
{
    u64_from_le_bytes(slice_subrange(data, offset, offset + 8))
}

/// Reads the 128-bit little-endian number at `offset`.
pub fn read_u128(data: &[u8], offset: usize) -> (r: u128)
    requires
        offset + 16 <= data.len(),
    ensures
        r == u128_at(data@, offset as int),
{
    u128_from_le_bytes(slice_subrange(data, offset, offset + 16))
}

/// The array of 8 bytes with the given content.
pub open spec fn bytes_8(content: Seq<u8>) -> [u8; 8] {
    choose|a: [u8; 8]| a@ == content
}

/// An array is the one made from its own content.
pub proof fn lemma_bytes_8(a: [u8; 8])
    ensures
        bytes_8(a@) == a,
{
    assert(bytes_8(a@)@ == a@);
    assert(bytes_8(a@) =~= a);
}

/// Copies the 8 bytes at `offset`.
pub fn read_8(data: &[u8], offset: usize) -> (r: [u8; 8])
    requires
        offset + 8 <= data.len(),
    ensures
        r@ == data@.subrange(offset as int, offset + 8),
        r == bytes_8(data@.subrange(offset as int, offset + 8)),
{
    let mut out = [0u8;8];
    let mut i: usize = 0;
    while i < 8
        invariant
            i <= 8,
            offset + 8 <= data.len(),
            forall|j: int| 0 <= j < i ==> out@[j] == data@[offset + j],
        decreases 8 - i,
    {
        out[i] = data[offset + i];
        i = i + 1;
    }
    assert(out@ =~= data@.subrange(offset as int, offset + 8));
    proof {
        lemma_bytes_8(out);
    }
    out
}

/// The array of 24 bytes with the given content.
pub open spec fn bytes_24(content: Seq<u8>) -> [u8; 24] {
    choose|a: [u8; 24]| a@ == content
}

/// An array is the one made from its own content.
pub proof fn lemma_bytes_24(a: [u8; 24])
    ensures
        bytes_24(a@) == a,
{
    assert(bytes_24(a@)@ == a@);
    assert(bytes_24(a@) =~= a);
}

/// Copies the 24 bytes at `offset`.
pub fn read_24(data: &[u8], offset: usize) -> (r: [u8; 24])
    requires
        offset + 24 <= data.len(),
    ensures
        r@ == data@.subrange(offset as int, offset + 24),
        r == bytes_24(data@.subrange(offset as int, offset + 24)),
{
    let mut out = [0u8;24];
    let mut i: usize = 0;
    while i < 24
        invariant
            i <= 24,
            offset + 24 <= data.len(),
            forall|j: int| 0 <= j < i ==> out@[j] == data@[offset + j],
        decreases 24 - i,
    {
        out[i] = data[offset + i];
        i = i + 1;
    }
    assert(out@ =~= data@.subrange(offset as int, offset + 24));
    proof {
        lemma_bytes_24(out);
    }
    out
}

/// The array of 32 bytes with the given content.
pub open spec fn bytes_32(content: Seq<u8>) -> [u8; 32] {
    choose|a: [u8; 32]| a@ == content
}

/// An array is the one made from its own content.
pub proof fn lemma_bytes_32(a: [u8; 32])
    ensures
        bytes_32(a@) == a,
{
    assert(bytes_32(a@)@ == a@);
    assert(bytes_32(a@) =~= a);
}

/// Every string of 32 bytes is the content of an array.
pub proof fn lemma_bytes_32_content(content: Seq<u8>)
    requires
        content.len() == 32,
    ensures
        bytes_32(content)@ == content,
{
    let a: [u8; 32] = [
        content[0], content[1], content[2], content[3], content[4], content[5], content[6],
        content[7], content[8], content[9], content[10], content[11], content[12], content[13],
        content[14], content[15], content[16], content[17], content[18], content[19],
        content[20], content[21], content[22], content[23], content[24], content[25],
        content[26], content[27], content[28], content[29], content[30], content[31],
    ];
    assert(a@ =~= content);
}

/// Copies the 32 bytes at `offset`.
pub fn read_32(data: &[u8], offset: usize) -> (r: [u8; 32])
    requires
        offset + 32 <= data.len(),
    ensures
        r@ == data@.subrange(offset as int, offset + 32),
        r == bytes_32(data@.subrange(offset as int, offset + 32)),
{
    let mut out = [0u8;32];
    let mut i: usize = 0;
    while i < 32
        invariant
            i <= 32,
            offset + 32 <= data.len(),
            forall|j: int| 0 <= j < i ==> out@[j] == data@[offset + j],
        decreases 32 - i,
    {
        out[i] = data[offset + i];
        i = i + 1;
    }
    assert(out@ =~= data@.subrange(offset as int, offset + 32));
    proof {
        lemma_bytes_32(out);
    }
    out
}

/// The array of 64 bytes with the given content.
pub open spec fn bytes_64(content: Seq<u8>) -> [u8; 64] {
    choose|a: [u8; 64]| a@ == content
}

/// An array is the one made from its own content.
pub proof fn lemma_bytes_64(a: [u8; 64])
    ensures
        bytes_64(a@) == a,
{
    assert(bytes_64(a@)@ == a@);
    assert(bytes_64(a@) =~= a);
}

/// Copies the 64 bytes at `offset`.
pub fn read_64(data: &[u8], offset: usize) -> (r: [u8; 64])
    requires
        offset + 64 <= data.len(),
    ensures
        r@ == data@.subrange(offset as int, offset + 64),
        r == bytes_64(data@.subrange(offset as int, offset + 64)),
{
    let mut out = [0u8;64];
    let mut i: usize = 0;
    while i < 64
        invariant
            i <= 64,
            offset + 64 <= data.len(),
            forall|j: int| 0 <= j < i ==> out@[j] == data@[offset + j],
        decreases 64 - i,
    {
        out[i] = data[offset + i];
        i = i + 1;
    }
    assert(out@ =~= data@.subrange(offset as int, offset + 64));
    proof {
        lemma_bytes_64(out);
    }
    out
}

/// The byte strings that `v` holds.
pub open spec fn rows(v: &Vec<Vec<u8>>) -> Seq<Seq<u8>> {
    Seq::new(v.len() as nat, |i: int| v[i]@)
}

/// A copy of `bytes`.
pub fn copy_bytes(bytes: &[u8]) -> (r: Vec<u8>)
    ensures
        r@ == bytes@,
{
    let mut out: Vec<u8> = Vec::new();
    put_bytes(&mut out, bytes);
    out
}

/// Appends `bytes` to `out`.
pub fn put_bytes(out: &mut Vec<u8>, bytes: &[u8])
    ensures
        final(out)@ == old(out)@ + bytes@,
{
    let mut i: usize = 0;
    while i < bytes.len()
        invariant
            i <= bytes.len(),
            out@ == old(out)@ + bytes@.subrange(0, i as int),
        decreases bytes.len() - i,
    {
        out.push(bytes[i]);
        i = i + 1;
        assert(out@ =~= old(out)@ + bytes@.subrange(0, i as int));
    }
    assert(bytes@.subrange(0, bytes.len() as int) =~= bytes@);
}

/// `data` with `bytes` written over it from `offset` on.
pub open spec fn overwritten(data: Seq<u8>, offset: int, bytes: Seq<u8>) -> Seq<u8> {
    Seq::new(
        data.len(),
        |i: int|
            if offset <= i < offset + bytes.len() {
                bytes[i - offset]
            } else {
                data[i]
            },
    )
}

/// What is written is read back, and what lies before or after it is what it was.
pub proof fn lemma_overwritten(data: Seq<u8>, offset: int, bytes: Seq<u8>)
    requires
        0 <= offset,
        offset + bytes.len() <= data.len(),
    ensures
        overwritten(data, offset, bytes).len() == data.len(),
        overwritten(data, offset, bytes).subrange(offset, offset + bytes.len()) == bytes,
        forall|from: int, to: int|
            0 <= from <= to <= data.len() && (to <= offset || offset + bytes.len() <= from)
                ==> #[trigger] overwritten(data, offset, bytes).subrange(from, to)
                == data.subrange(from, to),
{
    let after = overwritten(data, offset, bytes);
    assert(after.subrange(offset, offset + bytes.len()) =~= bytes);
    assert forall|from: int, to: int|
        0 <= from <= to <= data.len() && (to <= offset || offset + bytes.len()
            <= from) implies #[trigger] after.subrange(from, to) == data.subrange(from, to) by {
        assert(after.subrange(from, to) =~= data.subrange(from, to));
    }
}

/// Writes `bytes` over `data` from `offset` on, where they fit; returns whether they did.
pub fn write_at(data: &mut Vec<u8>, offset: usize, bytes: &[u8]) -> (done: bool)
    ensures
        done == (offset + bytes.len() <= old(data).len()),
        done ==> final(data)@ == overwritten(old(data)@, offset as int, bytes@),
        !done ==> final(data)@ == old(data)@,
{
    let len: usize = data.len();
    let count: usize = bytes.len();
    if count > len || offset > len - count {
        return false;
    }
    let mut i: usize = 0;
    while i < count
        invariant
            i <= count,
            count == bytes.len(),
            data.len() == len,
            len == old(data).len(),
            offset + count <= len,
            data@ == overwritten(old(data)@, offset as int, bytes@.subrange(0, i as int)),
        decreases count - i,
    {
        data[offset + i] = bytes[i];
        i = i + 1;
        assert(data@ =~= overwritten(old(data)@, offset as int, bytes@.subrange(0, i as int)));
    }
    assert(bytes@.subrange(0, count as int) =~= bytes@);
    true
}

/// Appends the four little-endian bytes of `x` to `out`.
pub fn put_u32(out: &mut Vec<u8>, x: u32)
    ensures
        final(out)@ == old(out)@ + spec_u32_to_le_bytes(x),
{
    let bytes = u32_to_le_bytes(x);
    put_bytes(out, bytes.as_slice());
}

/// Appends the eight little-endian bytes of `x` to `out`.
pub fn put_u64(out: &mut Vec<u8>, x: u64)
    ensures
        final(out)@ == old(out)@ + spec_u64_to_le_bytes(x),
{
    let bytes = u64_to_le_bytes(x);
    put_bytes(out, bytes.as_slice());
}

/// Appends the sixteen little-endian bytes of `x` to `out`.
pub fn put_u128(out: &mut Vec<u8>, x: u128)
    ensures
        final(out)@ == old(out)@ + spec_u128_to_le_bytes(x),
{
    let bytes = u128_to_le_bytes(x);
    put_bytes(out, bytes.as_slice());
}

} // verus!
