use hypemeter::account::AccountView;
use hypemeter::action::{cut_seed, Signer};
use hypemeter::address::{
    check_account, check_new_account, create, derive_address, derive_entry,
    derive_hype_authority,
    get_associated_token_address, get_seed_by_tag, get_token_seed_bytes, verify_existing,
    verify_new, Address,
};
use hypemeter::bytes::{
    copy_bytes, put_bytes, put_u128, put_u32, put_u64, read_24, read_32, read_64, read_8,
    read_u128, read_u32, read_u64, write_at,
};
use hypemeter::constants::{
    ASSOCIATED_TOKEN_PROGRAM_ID, CLIENT_TAG, HYPE_SEED, ROOT_TAG, SYSTEM_PROGRAM_ID,
    TOKEN_2022_PROGRAM_ID, TOKEN_HOLDING_SIZE, TOKEN_PROGRAM_ID,
};
use hypemeter::error::{Failure, HypeError, ERROR_CODE_BASE};
use hypemeter::naming::{
    build_token_label, build_token_name, check_mint_size, check_name, mask_admits,
    mint_account_len, METADATA_HEADER_SIZE, MINT_SPACE, NAME_PREFIX, TOKEN_SYMBOL,
};
use hypemeter::rent::{rent_exempt_minimum, MAX_RENT_LEN};
use solana_program::program_pack::Pack;
use solana_program::pubkey::Pubkey;
use solana_program::rent::Rent;
use spl_token_2022::extension::ExtensionType;
use spl_token_metadata_interface::state::TokenMetadata;

fn key(a: &Address) -> Pubkey {
    Pubkey::new_from_array(a.bytes)
}

fn addr(k: &Pubkey) -> Address {
    Address::new(k.to_bytes())
}

fn program() -> Address {
    Address::new([42; 32])
}

fn account(key: Address, owner: Address) -> AccountView {
    AccountView { key, owner, lamports: 0, is_signer: false, is_writable: false, data: vec![] }
}

#[test]
fn error_codes_start_at_6000() {
    assert_eq!(ERROR_CODE_BASE, 6000);
    assert_eq!(HypeError::InvalidAccountsNumber.code(), 6000);
    assert_eq!(HypeError::InvalidAccountKey.code(), 6006);
    assert_eq!(HypeError::ArithmeticOverflow.code(), 6009);
    assert_eq!(HypeError::TooSmallQuantity.code(), 6025);
    assert_eq!(HypeError::MaxTradeCostExceeded.code(), 6026);
    assert_eq!(HypeError::MaxNetworksCountExceeded.code(), 6038);
    assert_eq!(HypeError::TokenAlreadyVerified.code(), 6042);
    assert_eq!(HypeError::InvalidSupply.code(), 6044);
}

#[test]
fn error_messages() {
    assert_eq!(HypeError::InvalidAccountsNumber.message(), "Invalid Accounts Number");
    assert_eq!(HypeError::AddressHasToBeLowerCase.message(), "Address has to be lower case");
    assert_eq!(HypeError::InvalidTotalSupply.message(), "Invalid total supply");
    assert_eq!(HypeError::TokenAlreadyVerified.message(), "Token already verified");
}

#[test]
fn well_known_addresses_are_those_of_the_host() {
    assert_eq!(SYSTEM_PROGRAM_ID, solana_program::system_program::id().to_bytes());
    assert_eq!(TOKEN_PROGRAM_ID, spl_token::id().to_bytes());
    assert_eq!(TOKEN_2022_PROGRAM_ID, spl_token_2022::id().to_bytes());
    assert_eq!(ASSOCIATED_TOKEN_PROGRAM_ID, spl_associated_token_account::id().to_bytes());
    assert!(Address::new([0; 32]).is_system_program());
    assert!(!Address::new(TOKEN_PROGRAM_ID).is_system_program());
    assert_eq!(TOKEN_HOLDING_SIZE, spl_token::state::Account::LEN);
}

#[test]
fn address_equality_compares_every_byte() {
    let a = Address::new([1; 32]);
    let mut bytes = [1u8; 32];
    assert!(a.equals(&Address::new(bytes)));
    bytes[31] = 2;
    assert!(!a.equals(&Address::new(bytes)));
    bytes[31] = 1;
    bytes[0] = 0;
    assert!(!a.equals(&Address::new(bytes)));
    assert_eq!(a.to_vec(), vec![1u8; 32]);
}

#[test]
fn rent_is_that_of_the_default_schedule() {
    for len in [0usize, 1, 56, 165, 176, 216, 392, 528, 10_240, 10 * 1024 * 1024, MAX_RENT_LEN] {
        assert_eq!(rent_exempt_minimum(len), Some(Rent::default().minimum_balance(len)));
    }
    assert_eq!(rent_exempt_minimum(0), Some(890_880));
    assert_eq!(rent_exempt_minimum(165), Some(2_039_280));
    assert_eq!(rent_exempt_minimum(MAX_RENT_LEN + 1), None);
}

#[test]
fn seed_by_tag_is_version_then_tag() {
    assert_eq!(get_seed_by_tag(1, 2), [1, 0, 0, 0, 2, 0, 0, 0]);
    assert_eq!(get_seed_by_tag(0x0403_0201, 0xA0B0_C0D0), [1, 2, 3, 4, 0xD0, 0xC0, 0xB0, 0xA0]);
}

#[test]
fn token_seed_is_address_network_version() {
    let mut address = [0u8; 30];
    for (i, b) in address.iter_mut().enumerate() {
        *b = 100 + i as u8;
    }
    let seed = get_token_seed_bytes(0x0403_0201, 7, &address);
    assert_eq!(&seed[..24], &address[..24]);
    assert_eq!(&seed[24..28], &[7, 0, 0, 0]);
    assert_eq!(&seed[28..], &[1, 2, 3, 4]);
}

#[test]
fn derivation_is_the_host_s() {
    let seeds = vec![b"vault".to_vec(), vec![1, 2, 3]];
    let parts: Vec<&[u8]> = seeds.iter().map(|s| s.as_slice()).collect();
    let (expected, bump) = Pubkey::find_program_address(&parts, &key(&program()));
    assert_eq!(derive_address(&seeds, &program()), Some((addr(&expected), bump)));
    assert_ne!(addr(&expected), program());
    // too long a seed derives nothing
    assert_eq!(derive_address(&vec![vec![0u8; 33]], &program()), None);
    assert_eq!(derive_address(&vec![vec![1u8]; 16], &program()), None);
}

#[test]
fn creation_without_search_is_the_host_s() {
    let seeds = vec![b"vault".to_vec()];
    let parts: Vec<&[u8]> = seeds.iter().map(|s| s.as_slice()).collect();
    let (expected, bump) = Pubkey::find_program_address(&parts, &key(&program()));
    let with_bump = vec![b"vault".to_vec(), vec![bump]];
    assert_eq!(create(&with_bump, &program()), Ok(addr(&expected)));
    assert_eq!(create(&vec![vec![0u8; 33]], &program()), Err(Failure::MaxSeedLengthExceeded));
    assert_eq!(create(&vec![vec![0u8]; 17], &program()), Err(Failure::MaxSeedLengthExceeded));
    // some bump below the found one lies on the curve, or the found one is 255
    let mut refused = 0;
    for b in 0..=255u8 {
        let r = create(&vec![b"vault".to_vec(), vec![b]], &program());
        let host = Pubkey::create_program_address(&[b"vault", &[b]], &key(&program()));
        match (r, host) {
            (Ok(a), Ok(k)) => assert_eq!(a, addr(&k)),
            (Err(e), Err(_)) => {
                assert_eq!(e, Failure::InvalidSeeds);
                refused += 1;
            }
            _ => panic!("the two derivations differ"),
        }
    }
    assert!(refused > 0);
}

#[test]
fn the_program_s_authority_is_derived_from_its_seed() {
    assert_eq!(&HYPE_SEED, b"hype");
    let (expected, bump) = Pubkey::find_program_address(&[&HYPE_SEED], &key(&program()));
    assert_eq!(derive_hype_authority(&program()), Some((addr(&expected), bump)));
}

#[test]
fn entries_are_derived_from_seed_and_base() {
    let base = Address::new([5; 32]);
    let seed = get_seed_by_tag(9, CLIENT_TAG);
    let (expected, bump) = Pubkey::find_program_address(&[&seed, &base.bytes], &key(&program()));
    assert_eq!(derive_entry(&seed, &base, &program()), Some((addr(&expected), bump)));
}

#[test]
fn associated_token_addresses_are_those_of_the_token_service() {
    let wallet = Address::new([11; 32]);
    let mint = Address::new([12; 32]);
    for token_program in [Address::new(TOKEN_PROGRAM_ID), Address::new(TOKEN_2022_PROGRAM_ID)] {
        let expected = spl_associated_token_account::get_associated_token_address_with_program_id(
            &key(&wallet),
            &key(&mint),
            &key(&token_program),
        );
        assert_eq!(
            get_associated_token_address(&wallet, &mint, &token_program),
            Some(addr(&expected))
        );
    }
}

#[test]
fn existing_mode_accepts_the_derived_address_only() {
    let base = Address::new([5; 32]);
    let seed = get_seed_by_tag(9, ROOT_TAG);
    let (expected, bump) = derive_entry(&seed, &base, &program()).unwrap();
    let owned = account(expected, program());
    assert_eq!(check_account(&owned, &base, &program(), &seed), Ok(bump));
    let elsewhere = account(Address::new([1; 32]), program());
    assert_eq!(
        check_account(&elsewhere, &base, &program(), &seed),
        Err(Failure::Custom(HypeError::InvalidAccountKey))
    );
    // another seed derives another address
    assert_eq!(
        check_account(&owned, &base, &program(), &get_seed_by_tag(10, ROOT_TAG)),
        Err(Failure::Custom(HypeError::InvalidAccountKey))
    );
    // the right address under another owner: what it holds is not this program's
    let foreign = account(expected, Address::new([8; 32]));
    assert_eq!(
        check_account(&foreign, &base, &program(), &seed),
        Err(Failure::Custom(HypeError::InvalidAccountKey))
    );
    let unowned = account(expected, Address::new(SYSTEM_PROGRAM_ID));
    assert_eq!(
        check_account(&unowned, &base, &program(), &seed),
        Err(Failure::Custom(HypeError::InvalidAccountKey))
    );
    assert_eq!(verify_existing(&expected, Some((expected, 3))), Ok(3));
    assert_eq!(
        verify_existing(&expected, None),
        Err(Failure::Custom(HypeError::InvalidAccountKey))
    );
}

#[test]
fn new_mode_needs_an_unowned_account() {
    let base = Address::new([5; 32]);
    let seed = get_seed_by_tag(9, ROOT_TAG);
    let (expected, bump) = derive_entry(&seed, &base, &program()).unwrap();
    let unowned = account(expected, Address::new(SYSTEM_PROGRAM_ID));
    assert_eq!(check_new_account(&unowned, &base, &program(), &seed), Ok(bump));
    let owned = account(expected, program());
    assert_eq!(
        check_new_account(&owned, &base, &program(), &seed),
        Err(Failure::Custom(HypeError::InvalidAccountKey))
    );
    let elsewhere = account(Address::new([1; 32]), Address::new(SYSTEM_PROGRAM_ID));
    assert_eq!(
        check_new_account(&elsewhere, &base, &program(), &seed),
        Err(Failure::Custom(HypeError::InvalidAccountKey))
    );
    assert_eq!(verify_new(&unowned, Some((expected, 9))), Ok(9));
    assert_eq!(verify_new(&owned, Some((expected, 9))), Err(Failure::Custom(HypeError::InvalidAccountKey)));
}

#[test]
fn signer_seeds_sign_for_the_derived_address() {
    let base = Address::new([5; 32]);
    let (expected, bump) = derive_entry(&get_seed_by_tag(9, ROOT_TAG), &base, &program()).unwrap();
    let seeds = Signer::Tagged { version: 9, tag: ROOT_TAG, base, bump }.to_seeds();
    assert_eq!(create(&seeds, &program()), Ok(expected));
    let (authority, bump) = derive_hype_authority(&program()).unwrap();
    let seeds = Signer::Program { bump }.to_seeds();
    assert_eq!(seeds, vec![b"hype".to_vec(), vec![bump]]);
    assert_eq!(create(&seeds, &program()), Ok(authority));
    let mut address = [0u8; 24];
    address[..3].copy_from_slice(b"abc");
    let token_seed = get_token_seed_bytes(9, 2, &address);
    let (expected, bump) = derive_entry(&token_seed, &authority, &program()).unwrap();
    let seeds = Signer::Token { version: 9, network: 2, address, base: authority, bump }.to_seeds();
    assert_eq!(create(&seeds, &program()), Ok(expected));
    assert!(Signer::Wallet.to_seeds().is_empty());
    let seeds = Signer::Holder { seed: [b'h', b'o', 0, b'x', 0, 0, 0, 0], admin: base, bump: 7 }.to_seeds();
    assert_eq!(seeds, vec![b"ho".to_vec(), vec![5u8; 32], vec![7]]);
}

#[test]
fn seeds_are_cut_at_the_first_zero() {
    assert_eq!(cut_seed(b"abc\0def"), b"abc".to_vec());
    assert_eq!(cut_seed(b"\0abc"), Vec::<u8>::new());
    assert_eq!(cut_seed(b"abcdefgh"), b"abcdefgh".to_vec());
    assert_eq!(cut_seed(b""), Vec::<u8>::new());
}

#[test]
fn little_endian_fields() {
    let mut out = vec![0xEE];
    put_u32(&mut out, 0x0403_0201);
    put_u64(&mut out, 0x0807_0605_0403_0201);
    put_u128(&mut out, 1u128 << 120);
    put_bytes(&mut out, &[9, 9]);
    let mut expected = vec![0xEE, 1, 2, 3, 4, 1, 2, 3, 4, 5, 6, 7, 8];
    expected.extend_from_slice(&[0; 15]);
    expected.extend_from_slice(&[1, 9, 9]);
    assert_eq!(out, expected);
    assert_eq!(read_u32(&out, 1), 0x0403_0201);
    assert_eq!(read_u64(&out, 5), 0x0807_0605_0403_0201);
    assert_eq!(read_u128(&out, 13), 1u128 << 120);
    assert_eq!(copy_bytes(&out), out);
    let data: Vec<u8> = (0..100u8).collect();
    assert_eq!(read_8(&data, 3), [3, 4, 5, 6, 7, 8, 9, 10]);
    assert_eq!(read_24(&data, 1)[23], 24);
    assert_eq!(read_32(&data, 60)[0], 60);
    assert_eq!(read_32(&data, 60)[31], 91);
    assert_eq!(read_64(&data, 36)[63], 99);
    let mut data = vec![0u8, 1, 2, 3, 4, 5];
    assert!(write_at(&mut data, 2, &[9, 8, 7]));
    assert_eq!(data, vec![0, 1, 9, 8, 7, 5]);
    assert!(!write_at(&mut data, 4, &[6, 6, 6]));
    assert!(write_at(&mut data, 6, &[]));
    assert!(!write_at(&mut data, 7, &[]));
    assert_eq!(data, vec![0, 1, 9, 8, 7, 5]);
}

fn mask_of(chars: &[u8]) -> [u8; 64] {
    let mut mask = [0u8; 64];
    mask[0] = b'#';
    mask[1..1 + chars.len()].copy_from_slice(chars);
    mask
}

fn name_of(chars: &[u8]) -> [u8; 24] {
    let mut name = [0u8; 24];
    name[..chars.len()].copy_from_slice(chars);
    name
}

#[test]
fn the_mask_is_read_after_its_first_byte() {
    let mask = mask_of(b"abc");
    assert!(mask_admits(&mask, b'a'));
    assert!(mask_admits(&mask, b'c'));
    assert!(!mask_admits(&mask, b'#'));
    assert!(!mask_admits(&mask, b'd'));
    assert!(!mask_admits(&mask, 0));
    let mut holed = mask_of(b"ab");
    holed[10] = b'z';
    assert!(!mask_admits(&holed, b'z'));
    let full = [b'x'; 64];
    assert!(mask_admits(&full, b'x'));
    assert!(!mask_admits(&full, b'y'));
}

#[test]
fn names_are_checked_against_mask_and_length() {
    let mask = mask_of(b"0123456789abcdef");
    assert_eq!(check_name(&name_of(b"dead00beef"), &mask, 24), Ok(()));
    assert_eq!(check_name(&name_of(b"dead00beef"), &mask, 10), Ok(()));
    assert_eq!(check_name(&name_of(b"dead00beef"), &mask, 9), Err(HypeError::InvalidAddress));
    assert_eq!(check_name(&name_of(b"deadXbeef"), &mask, 24), Err(HypeError::InvalidAddress));
    assert_eq!(check_name(&name_of(b"#"), &mask, 24), Err(HypeError::InvalidAddress));
    assert_eq!(check_name(&name_of(b""), &mask, 0), Ok(()));
    assert_eq!(check_name(&name_of(b"a"), &mask, 0), Err(HypeError::InvalidAddress));
    // a name of all 24 bytes has 24 characters
    let full = [b'a'; 24];
    assert_eq!(check_name(&full, &mask, 24), Ok(()));
    assert_eq!(check_name(&full, &mask, 25), Ok(()));
    assert_eq!(check_name(&full, &mask, 23), Err(HypeError::InvalidAddress));
    assert_eq!(check_name(&full, &mask, 22), Err(HypeError::InvalidAddress));
    let mut shorter = [b'a'; 24];
    shorter[23] = 0;
    assert_eq!(check_name(&shorter, &mask, 23), Ok(()));
    assert_eq!(check_name(&shorter, &mask, 22), Err(HypeError::InvalidAddress));
    // bytes after the 24th are not part of the name
    let mut long = vec![b'a'; 30];
    long[25] = b'X';
    assert_eq!(check_name(&long, &mask, 24), Ok(()));
    assert_eq!(check_name(&long, &mask, 23), Err(HypeError::InvalidAddress));
}

fn latin1_name(address: &[u8], descriptor: &[u8]) -> String {
    let mut name = "Hypemeter: ".to_string();
    for &c in address {
        if c == 0 {
            break;
        }
        name.push(char::from(c));
    }
    name.push_str(" (");
    for &c in descriptor {
        if c == 0 {
            break;
        }
        name.push(char::from(c));
    }
    name.push(')');
    name
}

#[test]
fn token_names() {
    assert_eq!(&NAME_PREFIX, b"Hypemeter: ");
    assert_eq!(&TOKEN_SYMBOL, b"Hypemeter");
    let address = name_of(b"dead00beef");
    let mut descriptor = [0u8; 32];
    descriptor[..8].copy_from_slice(b"Ethereum");
    assert_eq!(build_token_name(&address, &descriptor), b"Hypemeter: dead00beef (Ethereum)".to_vec());
    let mut odd = [0u8; 24];
    odd[..4].copy_from_slice(&[b'a', 0xE9, 0xFF, 0x80]);
    let mut wide = [0xF1u8; 32];
    wide[31] = b'!';
    assert_eq!(
        String::from_utf8(build_token_name(&odd, &wide)).unwrap(),
        latin1_name(&odd, &wide)
    );
    assert_eq!(
        String::from_utf8(build_token_name(&[0xAB; 24], &[0xCD; 32])).unwrap().len(),
        126
    );
    assert_eq!(build_token_name(&[0; 24], &[0; 32]), b"Hypemeter:  ()".to_vec());
    // the characters of a name, one byte each, and their UTF-8 form
    assert_eq!(build_token_label(&address, &descriptor), b"Hypemeter: dead00beef (Ethereum)".to_vec());
    let label = build_token_label(&odd, &wide);
    assert_eq!(label.len(), 11 + 4 + 2 + 32 + 1);
    assert_eq!(label.iter().map(|b| char::from(*b)).collect::<String>(), latin1_name(&odd, &wide));
}

#[test]
fn mint_account_sizes_are_those_of_the_token_service() {
    let space = ExtensionType::try_calculate_account_len::<spl_token_2022::state::Mint>(&[
        ExtensionType::MetadataPointer,
    ])
    .unwrap();
    assert_eq!(MINT_SPACE, space);
    for (address, descriptor) in [
        (name_of(b"dead00beef"), [b'n'; 32]),
        ([0u8; 24], [0u8; 32]),
        ([0xE9u8; 24], [0xFFu8; 32]),
        (name_of(&[b'a', 0xE9, 0x7F, 0x80]), [0x80u8; 32]),
    ] {
        let mint = Pubkey::new_from_array([3; 32]);
        let authority = Pubkey::new_from_array([4; 32]);
        let metadata = TokenMetadata {
            name: latin1_name(&address, &descriptor),
            symbol: "Hypemeter".to_string(),
            uri: String::new(),
            update_authority: spl_pod::optional_keys::OptionalNonZeroPubkey::try_from(Some(authority))
                .unwrap(),
            mint,
            additional_metadata: vec![],
        };
        let packed = solana_program::borsh1::get_instance_packed_len(&metadata).unwrap();
        let name_len = build_token_name(&address, &descriptor).len();
        assert_eq!(80 + name_len + 9, packed);
        let expected = space + packed + 4 + 2;
        assert_eq!(METADATA_HEADER_SIZE, 6);
        let (m, a) = (Address::new([3; 32]), Address::new([4; 32]));
        assert_eq!(mint_account_len(&address, &descriptor, &a, &m), expected);
        assert_eq!(mint_account_len(&address, &descriptor, &a, &m), 329 + name_len);
        // the size does not depend on the two addresses
        assert_eq!(mint_account_len(&address, &descriptor, &Address::new([0; 32]), &a), expected);
        assert_eq!(check_mint_size(expected, &address, &descriptor, &a, &m), Ok(()));
        assert_eq!(check_mint_size(0, &address, &descriptor, &a, &m), Ok(()));
        assert_eq!(
            check_mint_size(expected + 1, &address, &descriptor, &a, &m),
            Err(HypeError::InvalidMintSize)
        );
    }
    assert_eq!(mint_account_len(&[0xE9u8; 24], &[0xFFu8; 32], &Address::new([4; 32]), &Address::new([3; 32])), 455);
    assert_eq!(mint_account_len(&[0u8; 24], &[0u8; 32], &Address::new([4; 32]), &Address::new([3; 32])), 343);
}
