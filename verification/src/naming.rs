//! External addresses of tokens: which ones a network accepts, and how a token is labelled.

use crate::action::{cut_seed, seed_prefix};
use crate::address::Address;
use crate::bytes::{copy_bytes, put_bytes};
use crate::constants::{ADDRESS_STRING_LENGTH, MASK_STRING_LENGTH};
use crate::error::HypeError;
use solana_program::borsh1::get_instance_packed_len;
use solana_program::pubkey::Pubkey;
use spl_pod::optional_keys::OptionalNonZeroPubkey;
use spl_token_2022::extension::ExtensionType;
use spl_token_2022::state::Mint;
use spl_token_metadata_interface::state::TokenMetadata;
use vstd::prelude::*;

verus! {

/// The letters `Hypemeter: `, with which every token name begins.
pub const NAME_PREFIX: [u8; 11] = [72, 121, 112, 101, 109, 101, 116, 101, 114, 58, 32];

/// The letters `Hypemeter`, the symbol of every token.
pub const TOKEN_SYMBOL: [u8; 9] = [72, 121, 112, 101, 109, 101, 116, 101, 114];

/// Bytes of a mint account with a metadata pointer and no metadata yet.
pub const MINT_SPACE: usize = 234;

/// Bytes that the type and the length of a metadata entry take in the mint account.
pub const METADATA_HEADER_SIZE: usize = 6;

/// The most characters of a text whose stored length is asked for: twice as many bytes
/// still fit the four bytes in which the length of a text is stored.
pub const MAX_TEXT_LENGTH: usize = 0x7fff_ffff;

/// Number of bytes of `name` before its first zero byte, at most 24.
pub open spec fn name_length(name: Seq<u8>) -> nat {
    seed_prefix(name.subrange(0, ADDRESS_STRING_LENGTH as int)).len()
}

/// Whether the mask admits the character `c`: it stands in the mask after position zero and
/// before the first zero byte that follows position zero.
pub open spec fn admits(mask: Seq<u8>, c: u8) -> bool {
    exists|j: int|
        1 <= j < MASK_STRING_LENGTH && #[trigger] mask[j] == c && forall|k: int|
            1 <= k <= j ==> mask[k] != 0
}

/// Whether a network with the given mask and maximum length accepts the external address
/// `name`.
///
/// The name may have up to `max_length` characters, a name of all 24 bytes included, and
/// every character must be admitted by the mask.
pub open spec fn name_accepted(name: Seq<u8>, mask: Seq<u8>, max_length: u64) -> bool {
    let n = name_length(name);
    &&& n <= max_length
    &&& forall|i: int| 0 <= i < n ==> admits(mask, #[trigger] name[i])
}

/// What the check of an external address gives.
pub open spec fn name_check(name: Seq<u8>, mask: Seq<u8>, max_length: u64) -> Result<(), HypeError> {
    if name_accepted(name, mask, max_length) {
        Ok(())
    } else {
        Err(HypeError::InvalidAddress)
    }
}

/// The UTF-8 form of a string of Latin-1 characters.
pub open spec fn latin1_utf8(bytes: Seq<u8>) -> Seq<u8>
    decreases bytes.len(),
{
    if bytes.len() == 0 {
        Seq::empty()
    } else {
        let b = bytes[0];
        let head = if b < 128 {
            seq![b]
        } else {
            seq![(192 + b / 64) as u8, (128 + b % 64) as u8]
        };
        head + latin1_utf8(bytes.subrange(1, bytes.len() as int))
    }
}

/// The name of a token, in UTF-8: `Hypemeter: `, the external address, and the network
/// descriptor in round brackets.
pub open spec fn token_name(address: Seq<u8>, descriptor: Seq<u8>) -> Seq<u8> {
    NAME_PREFIX@ + latin1_utf8(seed_prefix(address)) + seq![32u8, 40u8] + latin1_utf8(
        seed_prefix(descriptor),
    ) + seq![41u8]
}

/// The characters of the name of a token, one byte each: `Hypemeter: `, the external address,
/// and the network descriptor in round brackets.
pub open spec fn token_label(address: Seq<u8>, descriptor: Seq<u8>) -> Seq<u8> {
    NAME_PREFIX@ + seed_prefix(address) + seq![32u8, 40u8] + seed_prefix(descriptor) + seq![41u8]
}

/// Bytes of the stored metadata of a token with the given name, symbol and URI, each a
/// string of Latin-1 characters, and no further entries: two addresses of 32 bytes, four
/// bytes of length for each of the three texts and for the empty list of entries, and the
/// texts themselves in UTF-8.
pub open spec fn metadata_size(name: Seq<u8>, symbol: Seq<u8>, uri: Seq<u8>) -> nat {
    80 + latin1_utf8(name).len() + latin1_utf8(symbol).len() + latin1_utf8(uri).len()
}

/// Bytes of the mint account of a token once its metadata is stored: the mint with its
/// metadata pointer, the metadata, and the type and length that stand before them.
pub open spec fn mint_account_size(address: Seq<u8>, descriptor: Seq<u8>) -> nat {
    MINT_SPACE as nat + metadata_size(
        token_label(address, descriptor),
        TOKEN_SYMBOL@,
        Seq::empty(),
    ) + METADATA_HEADER_SIZE as nat
}

/// Calls `ExtensionType::try_calculate_account_len` of `spl_token_2022` for a mint whose one
/// extension is a metadata pointer. The call succeeds and gives 234: the 165 bytes of a base
/// account, one byte of account type, and the 64 bytes of the pointer behind four bytes of
/// type and length.
#[verifier::external_body]
pub(crate) fn mint_len_with_pointer() -> (r: Option<usize>)
    ensures
        r == Some(MINT_SPACE),
{
    ExtensionType::try_calculate_account_len::<Mint>(&[ExtensionType::MetadataPointer]).ok()
}

/// Calls `solana_program::borsh1::get_instance_packed_len` on the `TokenMetadata` of a token
/// with the given update authority, mint, name, symbol and URI and no further entries. The
/// three texts are strings of Latin-1 characters, which the metadata holds in UTF-8. The
/// call succeeds and gives the number of bytes that the metadata takes once stored: 32 for
/// each of the two addresses, four bytes of length before each text and before the empty
/// list of entries, and the bytes of the texts.
#[verifier::external_body]
pub(crate) fn metadata_packed_len(
    name: &Vec<u8>,
    symbol: &Vec<u8>,
    uri: &Vec<u8>,
    update_authority: &Address,
    mint: &Address,
) -> (r: Option<usize>)
    requires
        name.len() <= MAX_TEXT_LENGTH,
        symbol.len() <= MAX_TEXT_LENGTH,
        uri.len() <= MAX_TEXT_LENGTH,
    ensures
        match r {
            Some(n) => n == metadata_size(name@, symbol@, uri@),
            None => false,
        },
{
    let metadata = TokenMetadata {
        update_authority: OptionalNonZeroPubkey(Pubkey::new_from_array(update_authority.bytes)),
        mint: Pubkey::new_from_array(mint.bytes),
        name: name.iter().map(|b| char::from(*b)).collect(),
        symbol: symbol.iter().map(|b| char::from(*b)).collect(),
        uri: uri.iter().map(|b| char::from(*b)).collect(),
        additional_metadata: Vec::new(),
    };
    get_instance_packed_len(&metadata).ok()
}

proof fn lemma_prefix_step(s: Seq<u8>, i: int)
    requires
        0 <= i < s.len(),
        forall|k: int| 0 <= k <= i ==> s[k] != 0,
    ensures
        seed_prefix(s).len() > i,
        forall|k: int| 0 <= k <= i ==> seed_prefix(s)[k] == s[k],
    decreases i,
{
    let rest = s.subrange(1, s.len() as int);
    if i > 0 {
        assert forall|k: int| 0 <= k <= i - 1 implies rest[k] != 0 by {
            assert(rest[k] == s[k + 1]);
        }
        lemma_prefix_step(rest, i - 1);
        assert forall|k: int| 0 <= k <= i implies seed_prefix(s)[k] == s[k] by {
            if k > 0 {
                assert(seed_prefix(rest)[k - 1] == rest[k - 1]);
            }
        }
    }
}

proof fn lemma_prefix_stops(s: Seq<u8>, i: int)
    requires
        0 <= i <= s.len(),
        forall|k: int| 0 <= k < i ==> s[k] != 0,
        i == s.len() || s[i] == 0,
    ensures
        seed_prefix(s).len() == i,
        forall|k: int| 0 <= k < i ==> seed_prefix(s)[k] == s[k],
    decreases i,
{
    if i > 0 {
        let rest = s.subrange(1, s.len() as int);
        assert forall|k: int| 0 <= k < i - 1 implies rest[k] != 0 by {
            assert(rest[k] == s[k + 1]);
        }
        lemma_prefix_stops(rest, i - 1);
        assert forall|k: int| 0 <= k < i implies seed_prefix(s)[k] == s[k] by {
            if k > 0 {
                assert(seed_prefix(rest)[k - 1] == rest[k - 1]);
            }
        }
    }
}

/// Whether the mask admits the character `c`.
pub fn mask_admits(mask: &[u8; 64], c: u8) -> (r: bool)
    ensures
        r == admits(mask@, c),
{
    let mut j: usize = 1;
    while j < MASK_STRING_LENGTH
        invariant
            1 <= j <= MASK_STRING_LENGTH,
            forall|k: int| 1 <= k < j ==> mask@[k] != 0 && mask@[k] != c,
        decreases MASK_STRING_LENGTH - j,
    {
        if mask[j] == 0 {
            return false;
        }
        if mask[j] == c {
            return true;
        }
        j = j + 1;
    }
    false
}

/// Checks an external address against a network's mask and maximum length.
pub fn check_name(name: &[u8], mask: &[u8; 64], max_length: u64) -> (r: Result<(), HypeError>)
    requires
        name.len() >= ADDRESS_STRING_LENGTH,
    ensures
        r == name_check(name@, mask@, max_length),
{
    let ghost head = name@.subrange(0, ADDRESS_STRING_LENGTH as int);
    let mut i: usize = 0;
    while i < ADDRESS_STRING_LENGTH
        invariant
            i <= ADDRESS_STRING_LENGTH <= name.len(),
            head == name@.subrange(0, ADDRESS_STRING_LENGTH as int),
            forall|k: int| 0 <= k < i ==> name@[k] != 0 && admits(mask@, #[trigger] name@[k]),
            i > 0 ==> i - 1 <= max_length,
        decreases ADDRESS_STRING_LENGTH - i,
    {
        if i as u64 > max_length {
            proof {
                if i > 0 {
                    lemma_prefix_step(head, i - 1);
                }
            }
            return Err(HypeError::InvalidAddress);
        }
        if name[i] == 0 {
            proof {
                lemma_prefix_stops(head, i as int);
            }
            return Ok(());
        }
        if !mask_admits(mask, name[i]) {
            proof {
                lemma_prefix_step(head, i as int);
            }
            return Err(HypeError::InvalidAddress);
        }
        i = i + 1;
    }
    proof {
        lemma_prefix_stops(head, ADDRESS_STRING_LENGTH as int);
    }
    if ADDRESS_STRING_LENGTH as u64 > max_length {
        return Err(HypeError::InvalidAddress);
    }
    Ok(())
}

proof fn lemma_prefix_bounded(s: Seq<u8>)
    ensures
        seed_prefix(s).len() <= s.len(),
    decreases s.len(),
{
    if s.len() > 0 && s[0] != 0 {
        lemma_prefix_bounded(s.subrange(1, s.len() as int));
    }
}

proof fn lemma_utf8_bounded(s: Seq<u8>)
    ensures
        latin1_utf8(s).len() <= 2 * s.len(),
    decreases s.len(),
{
    if s.len() > 0 {
        lemma_utf8_bounded(s.subrange(1, s.len() as int));
    }
}

proof fn lemma_utf8_of_ascii(s: Seq<u8>)
    requires
        forall|i: int| 0 <= i < s.len() ==> s[i] < 128,
    ensures
        latin1_utf8(s) == s,
    decreases s.len(),
{
    if s.len() > 0 {
        lemma_utf8_of_ascii(s.subrange(1, s.len() as int));
        assert(seq![s[0]] + s.subrange(1, s.len() as int) =~= s);
    }
}

proof fn lemma_utf8_of_parts(a: Seq<u8>, b: Seq<u8>)
    ensures
        latin1_utf8(a + b) == latin1_utf8(a) + latin1_utf8(b),
    decreases a.len(),
{
    if a.len() == 0 {
        assert(a + b =~= b);
        assert(latin1_utf8(a) + latin1_utf8(b) =~= latin1_utf8(b));
    } else {
        let rest = a.subrange(1, a.len() as int);
        lemma_utf8_of_parts(rest, b);
        assert((a + b).subrange(1, (a + b).len() as int) =~= rest + b);
        let head = if a[0] < 128 {
            seq![a[0]]
        } else {
            seq![(192 + a[0] / 64) as u8, (128 + a[0] % 64) as u8]
        };
        assert(head + (latin1_utf8(rest) + latin1_utf8(b)) =~= (head + latin1_utf8(rest))
            + latin1_utf8(b));
    }
}

/// The name of a token is the UTF-8 form of its characters.
pub proof fn token_name_is_utf8_of_label(address: Seq<u8>, descriptor: Seq<u8>)
    ensures
        token_name(address, descriptor) == latin1_utf8(token_label(address, descriptor)),
{
    let a = seed_prefix(address);
    let d = seed_prefix(descriptor);
    lemma_utf8_of_ascii(NAME_PREFIX@);
    lemma_utf8_of_ascii(seq![32u8, 40u8]);
    lemma_utf8_of_ascii(seq![41u8]);
    lemma_utf8_of_parts(NAME_PREFIX@ + a + seq![32u8, 40u8] + d, seq![41u8]);
    lemma_utf8_of_parts(NAME_PREFIX@ + a + seq![32u8, 40u8], d);
    lemma_utf8_of_parts(NAME_PREFIX@ + a, seq![32u8, 40u8]);
    lemma_utf8_of_parts(NAME_PREFIX@, a);
}

/// A token name has at most 126 bytes, and the mint account that holds it at most 455.
pub proof fn lemma_token_name_bounded(address: Seq<u8>, descriptor: Seq<u8>)
    requires
        address.len() == 24,
        descriptor.len() == 32,
    ensures
        token_name(address, descriptor).len() <= 126,
        token_label(address, descriptor).len() <= 70,
        mint_account_size(address, descriptor) == 329 + token_name(address, descriptor).len(),
        mint_account_size(address, descriptor) <= 455,
{
    lemma_prefix_bounded(address);
    lemma_prefix_bounded(descriptor);
    lemma_utf8_bounded(seed_prefix(address));
    lemma_utf8_bounded(seed_prefix(descriptor));
    token_name_is_utf8_of_label(address, descriptor);
    lemma_utf8_of_ascii(TOKEN_SYMBOL@);
    assert(latin1_utf8(Seq::<u8>::empty()).len() == 0);
}

/// What the check of a mint account after the token's metadata is stored gives: the account
/// may not be longer than its mint, its metadata pointer and its metadata need.
pub open spec fn mint_size_check(actual: usize, address: Seq<u8>, descriptor: Seq<u8>) -> Result<
    (),
    HypeError,
> {
    if actual > mint_account_size(address, descriptor) {
        Err(HypeError::InvalidMintSize)
    } else {
        Ok(())
    }
}

/// Appends the UTF-8 form of the Latin-1 characters `bytes` to `out`.
fn put_latin1(out: &mut Vec<u8>, bytes: &Vec<u8>)
    ensures
        final(out)@ == old(out)@ + latin1_utf8(bytes@),
{
    let mut i: usize = 0;
    proof {
        assert(bytes@.subrange(0, bytes.len() as int) =~= bytes@);
        assert(out@ + Seq::<u8>::empty() =~= out@);
    }
    let ghost mut done: Seq<u8> = Seq::empty();
    while i < bytes.len()
        invariant
            i <= bytes.len(),
            out@ == old(out)@ + done,
            latin1_utf8(bytes@) == done + latin1_utf8(bytes@.subrange(i as int, bytes.len() as int)),
        decreases bytes.len() - i,
    {
        let b = bytes[i];
        let ghost rest = bytes@.subrange(i as int, bytes.len() as int);
        proof {
            assert(rest.subrange(1, rest.len() as int) =~= bytes@.subrange(
                i + 1,
                bytes.len() as int,
            ));
            assert(rest[0] == b);
        }
        if b < 128 {
            out.push(b);
            proof {
                done = done.push(b);
                assert(done + latin1_utf8(bytes@.subrange(i + 1, bytes.len() as int)) =~= done.drop_last()
                    + (seq![b] + latin1_utf8(bytes@.subrange(i + 1, bytes.len() as int))));
            }
        } else {
            out.push(192 + b / 64);
            out.push(128 + b % 64);
            proof {
                let ghost before = done;
                done = done.push((192 + b / 64) as u8).push((128 + b % 64) as u8);
                assert(done + latin1_utf8(bytes@.subrange(i + 1, bytes.len() as int)) =~= before + (
                seq![(192 + b / 64) as u8, (128 + b % 64) as u8] + latin1_utf8(
                    bytes@.subrange(i + 1, bytes.len() as int),
                )));
            }
        }
        assert(out@ =~= old(out)@ + done);
        i = i + 1;
    }
    proof {
        assert(latin1_utf8(bytes@.subrange(bytes.len() as int, bytes.len() as int)) =~= Seq::<
            u8,
        >::empty());
        assert(done + Seq::<u8>::empty() =~= done);
    }
}

/// Builds the name of a token, in UTF-8, from its external address and the descriptor of its
/// network.
pub fn build_token_name(address: &[u8; 24], descriptor: &[u8; 32]) -> (r: Vec<u8>)
    ensures
        r@ == token_name(address@, descriptor@),
{
    let mut out: Vec<u8> = Vec::new();
    put_bytes(&mut out, NAME_PREFIX.as_slice());
    assert(out@ =~= NAME_PREFIX@);
    let a = cut_seed(address.as_slice());
    put_latin1(&mut out, &a);
    out.push(32);
    out.push(40);
    let d = cut_seed(descriptor.as_slice());
    assert(out@ =~= NAME_PREFIX@ + latin1_utf8(seed_prefix(address@)) + seq![32u8, 40u8]);
    put_latin1(&mut out, &d);
    out.push(41);
    assert(out@ =~= token_name(address@, descriptor@));
    out
}

/// Builds the characters of the name of a token, one byte each, from its external address and
/// the descriptor of its network.
pub fn build_token_label(address: &[u8; 24], descriptor: &[u8; 32]) -> (r: Vec<u8>)
    ensures
        r@ == token_label(address@, descriptor@),
{
    let mut out: Vec<u8> = Vec::new();
    put_bytes(&mut out, NAME_PREFIX.as_slice());
    let a = cut_seed(address.as_slice());
    put_bytes(&mut out, a.as_slice());
    out.push(32);
    out.push(40);
    let d = cut_seed(descriptor.as_slice());
    put_bytes(&mut out, d.as_slice());
    out.push(41);
    assert(out@ =~= token_label(address@, descriptor@));
    out
}

/// Computes the size of the mint account of a token once its metadata is stored under the
/// authority `update_authority` for the mint `mint`: the token service measures the mint and
/// the host's serialisation helper the metadata.
pub fn mint_account_len(
    address: &[u8; 24],
    descriptor: &[u8; 32],
    update_authority: &Address,
    mint: &Address,
) -> (r: usize)
    ensures
        r == mint_account_size(address@, descriptor@),
        r <= 455,
{
    proof {
        lemma_token_name_bounded(address@, descriptor@);
    }
    let label = build_token_label(address, descriptor);
    let symbol = copy_bytes(TOKEN_SYMBOL.as_slice());
    let uri: Vec<u8> = Vec::new();
    let space = mint_len_with_pointer().unwrap();
    let stored = metadata_packed_len(&label, &symbol, &uri, update_authority, mint).unwrap();
    space + stored + METADATA_HEADER_SIZE
}

/// Checks the size of a mint account after the token's metadata is stored.
pub fn check_mint_size(
    actual: usize,
    address: &[u8; 24],
    descriptor: &[u8; 32],
    update_authority: &Address,
    mint: &Address,
) -> (r: Result<(), HypeError>)
    ensures
        r == mint_size_check(actual, address@, descriptor@),
{
    if actual > mint_account_len(address, descriptor, update_authority, mint) {
        Err(HypeError::InvalidMintSize)
    } else {
        Ok(())
    }
}

} // verus!
