use hypemeter::account::{AccountView, Clock, Host};
use hypemeter::action::{Action, Effects, Signer};
use hypemeter::address::{
    derive_entry, derive_hype_authority, get_associated_token_address, get_seed_by_tag,
    get_token_seed_bytes, Address,
};
use hypemeter::constants::{
    ASSOCIATED_TOKEN_PROGRAM_ID, CLIENT_ACCOUNT_SIZE, CLIENT_TAG, HOLDER_ACCOUNT_SIZE, HOLDER_TAG,
    NOT_CHECKED, NOT_VERIFIED, NO_VERSION, ROOT_ACCOUNT_SIZE, ROOT_TAG, SYSTEM_PROGRAM_ID,
    TOKEN_2022_PROGRAM_ID, TOKEN_ACCOUNT_SIZE, TOKEN_PROGRAM_ID, TOKEN_TAG, VERIFIED,
};
use hypemeter::context::{
    derive_trade_addresses, Context, AUTHORITY, BASE_MINT, CLIENT, CLIENT_HYPE, CLIENT_TOKENS,
    HYPE_MINT, REFERRER, REFERRER_TOKENS, RESERVE, ROOT, TOKEN, TOKEN_PROGRAM, TRADE_ACCOUNTS,
};
use hypemeter::dispatch::{process_instruction, Outcome};
use hypemeter::error::{Failure, HypeError};
use hypemeter::fees::FeeSplit;
use hypemeter::ledger::{
    check_holder_account, check_holder_admin, find_operator, load_root, load_tagged_root,
    read_network,
};
use hypemeter::log::{Event, TradeRecord};
use hypemeter::naming::mint_account_len;
use hypemeter::processor::add_network::{add_network, required_network_len, store_network};
use hypemeter::processor::add_operator::{add_operator, store_operator};
use hypemeter::processor::burn::{burn, burn_with};
use hypemeter::processor::change_client_data::{change_client_data, load_client};
use hypemeter::processor::change_token_status::{
    change_token_status, change_token_status_with, decide_status,
};
use hypemeter::processor::initialize_holder::{initialize_holder, initialize_holder_with};
use hypemeter::processor::initialize_root::{decimals_factor, initialize_root, initialize_root_with};
use hypemeter::processor::mint::{derive_token_entry, mint, mint_with};
use hypemeter::processor::withdraw_holder_funds::{
    withdraw_holder_funds, withdraw_holder_funds_with,
};
use hypemeter::processor::withdraw_operator_funds::{
    withdraw_operator_funds, withdraw_operator_funds_with,
};
use hypemeter::registry::grow;
use hypemeter::rent::rent_exempt_minimum;
use hypemeter::state::client::ClientAccount;
use hypemeter::state::holder::{HolderAccount, OperatorRecord};
use hypemeter::state::root::{NetworkRecord, RootAccount};
use hypemeter::state::token::TokenAccount;
use hypemeter::trade::{get_curve, read_supply, Trade};
use solana_program::pubkey::Pubkey;

const VERSION: u32 = 9;

fn a(b: u8) -> Address {
    Address::new([b; 32])
}

fn program() -> Address {
    a(42)
}

fn system() -> Address {
    Address::new(SYSTEM_PROGRAM_ID)
}

fn admin() -> Address {
    a(0xAD)
}

fn host(time: u32, slot: u64) -> Host {
    Host { clock: Clock { slot, time }, holder_admin: admin(), network_rent: 0 }
}

fn custom<T>(e: HypeError) -> Result<T, Failure> {
    Err(Failure::Custom(e))
}

fn plain(key: Address) -> AccountView {
    AccountView { key, owner: system(), lamports: 0, is_signer: false, is_writable: false, data: vec![] }
}

fn wallet(key: Address) -> AccountView {
    AccountView { key, owner: system(), lamports: 1_000_000_000, is_signer: true, is_writable: true, data: vec![] }
}

fn owned(key: Address, owner: Address, data: Vec<u8>) -> AccountView {
    AccountView { key, owner, lamports: 10_000_000, is_signer: false, is_writable: false, data }
}

fn authority() -> (Address, u8) {
    derive_hype_authority(&program()).unwrap()
}

/// The intents of `effects` without the audit events among them.
fn intents(effects: &Effects) -> Vec<Action> {
    effects.actions.iter().filter(|a| !matches!(a, Action::Log(_))).copied().collect()
}

/// The audit events of `effects`, in the order in which they are logged.
fn events(effects: &Effects) -> Vec<Event> {
    effects
        .actions
        .iter()
        .filter_map(|a| match a {
            Action::Log(event) => Some(*event),
            _ => None,
        })
        .collect()
}

/// The places of the audit events among the intents of `effects`.
fn places(effects: &Effects) -> Vec<usize> {
    (0..effects.actions.len()).filter(|i| matches!(effects.actions[*i], Action::Log(_))).collect()
}

fn err_of<T>(r: Result<(T, Effects), Failure>) -> Failure {
    match r {
        Ok(_) => panic!("the operation was accepted"),
        Err(e) => e,
    }
}

fn name32(text: &[u8]) -> [u8; 32] {
    let mut out = [0u8; 32];
    out[..text.len()].copy_from_slice(text);
    out
}

// ---------------------------------------------------------------- holder registry

fn holder_seed() -> [u8; 8] {
    [b'h', b'o', b'l', b'd', 0, 0, 0, 0]
}

fn holder_address() -> (Address, u8) {
    let (key, bump) =
        Pubkey::find_program_address(&[b"hold", &admin().bytes], &Pubkey::new_from_array(program().bytes));
    (Address::new(key.to_bytes()), bump)
}

fn holder_init_data(bump: u8) -> Vec<u8> {
    let mut data = vec![0u8];
    data.extend_from_slice(&holder_seed());
    data.push(bump);
    data
}

fn holder_init_accounts() -> Vec<AccountView> {
    vec![wallet(admin()), plain(holder_address().0), plain(a(0x77)), plain(system())]
}

#[test]
fn the_holder_registry_is_bootstrapped() {
    let (key, bump) = holder_address();
    let (holder, effects) =
        initialize_holder(&program(), &holder_init_accounts(), &holder_init_data(bump), &host(5, 6)).unwrap();
    assert_eq!(
        holder,
        HolderAccount { tag: HOLDER_TAG, version: NO_VERSION, wallet: a(0x77), slot: 6, time: 5, operators_count: 0 }
    );
    assert_eq!(
        effects.actions,
        vec![Action::CreateAccount {
            payer: admin(),
            account: key,
            lamports: 1_280_640,
            space: 56,
            owner: program(),
            signer: Signer::Holder { seed: holder_seed(), admin: admin(), bump },
        }]
    );
}

#[test]
fn the_holder_bootstrap_is_refused() {
    let (_, bump) = holder_address();
    let data = holder_init_data(bump);
    let h = host(5, 6);
    let ok = holder_init_accounts();
    assert_eq!(err_of(initialize_holder(&program(), &ok[..3], &data, &h)), Failure::Custom(HypeError::InvalidAccountsNumber));
    assert_eq!(err_of(initialize_holder(&program(), &ok, &data[..9], &h)), Failure::Custom(HypeError::InvalidDataLength));
    let mut accounts = ok.clone();
    accounts[0].is_signer = false;
    assert_eq!(err_of(initialize_holder(&program(), &accounts, &data, &h)), Failure::Custom(HypeError::InvalidHolderAdmin));
    let mut accounts = ok.clone();
    accounts[0].is_writable = false;
    assert_eq!(err_of(initialize_holder(&program(), &accounts, &data, &h)), Failure::Custom(HypeError::InvalidHolderAdmin));
    let mut accounts = ok.clone();
    accounts[0].key = a(1);
    assert_eq!(err_of(initialize_holder(&program(), &accounts, &data, &h)), Failure::Custom(HypeError::InvalidHolderAdmin));
    let mut accounts = ok.clone();
    accounts[3].key = a(1);
    assert_eq!(err_of(initialize_holder(&program(), &accounts, &data, &h)), Failure::Custom(HypeError::InvalidSystemProgramId));
    let mut accounts = ok.clone();
    accounts[0].lamports = 1_280_639;
    assert_eq!(err_of(initialize_holder(&program(), &accounts, &data, &h)), Failure::Custom(HypeError::InsufficientFunds));
    let mut accounts = ok.clone();
    accounts[0].lamports = 1_280_640;
    assert!(initialize_holder(&program(), &accounts, &data, &h).is_ok());
    let mut accounts = ok.clone();
    accounts[1].key = a(2);
    assert_eq!(err_of(initialize_holder(&program(), &accounts, &data, &h)), Failure::Custom(HypeError::InvalidNewAccountPDA));
    // another bump seed derives another address, or none
    for other in 0..=255u8 {
        if other != bump {
            let e = err_of(initialize_holder(&program(), &ok, &holder_init_data(other), &h));
            assert!(e == Failure::Custom(HypeError::InvalidNewAccountPDA) || e == Failure::InvalidSeeds);
        }
    }
    assert_eq!(
        err_of(initialize_holder_with(&program(), &ok, &data, &h, Err(Failure::InvalidSeeds))),
        Failure::InvalidSeeds
    );
    assert!(initialize_holder_with(&program(), &ok, &data, &h, Ok(ok[1].key)).is_ok());
}

fn registry(operators: &[OperatorRecord], spare: usize) -> AccountView {
    let header = HolderAccount {
        tag: HOLDER_TAG,
        version: NO_VERSION,
        wallet: a(0x77),
        slot: 1,
        time: 2,
        operators_count: operators.len() as u32,
    };
    let mut data = header.pack();
    for o in operators {
        data.extend_from_slice(&o.pack());
    }
    data.extend_from_slice(&vec![0u8; spare]);
    let mut account = owned(holder_address().0, program(), data);
    account.lamports = 1_500_000;
    account
}

fn operator(version: u32, max_networks_count: u32) -> OperatorRecord {
    OperatorRecord { operator_address: a(0x0B), version, max_networks_count, operator_name: name32(b"operator") }
}

fn operator_data(version: u32, max_networks_count: u32) -> Vec<u8> {
    let mut data = vec![1u8];
    data.extend_from_slice(&version.to_le_bytes());
    data.extend_from_slice(&max_networks_count.to_le_bytes());
    data.extend_from_slice(&name32(b"operator"));
    data
}

fn operator_accounts(holder: AccountView) -> Vec<AccountView> {
    let mut holder = holder;
    holder.is_writable = true;
    vec![wallet(admin()), holder, plain(a(0x0B)), plain(system())]
}

#[test]
fn an_operator_is_appended() {
    let accounts = operator_accounts(registry(&[], 0));
    let (added, effects) = add_operator(&program(), &accounts, &operator_data(VERSION, 2), &host(5, 6)).unwrap();
    assert_eq!(added.id, 0);
    assert_eq!(added.offset, 56);
    assert_eq!(added.record, operator(VERSION, 2));
    assert_eq!(added.header.operators_count, 1);
    assert_eq!(added.header.time, 5);
    assert_eq!(added.header.slot, 6);
    assert_eq!(added.header.wallet, a(0x77));
    // 128 bytes ask for (128 + 128) * 6960 = 1,781,760
    assert_eq!(
        effects.actions,
        vec![
            Action::Fund { from: admin(), to: accounts[1].key, lamports: 281_760 },
            Action::Grow { account: accounts[1].key, new_size: 128 },
        ]
    );
}

#[test]
fn an_operator_is_appended_without_growth_where_there_is_room() {
    let accounts = operator_accounts(registry(&[operator(1, 0)], 72));
    let (added, effects) = add_operator(&program(), &accounts, &operator_data(VERSION, 2), &host(5, 6)).unwrap();
    assert_eq!(added.id, 1);
    assert_eq!(added.offset, 128);
    assert!(effects.actions.is_empty());
    // a rich registry is not funded, but the transfer of nothing is still asked for
    let mut accounts = operator_accounts(registry(&[operator(1, 0)], 0));
    accounts[1].lamports = u64::MAX;
    let (_, effects) = add_operator(&program(), &accounts, &operator_data(VERSION, 2), &host(5, 6)).unwrap();
    assert_eq!(
        effects.actions,
        vec![
            Action::Fund { from: admin(), to: accounts[1].key, lamports: 0 },
            Action::Grow { account: accounts[1].key, new_size: 200 },
        ]
    );
}

#[test]
fn appends_assign_consecutive_ids() {
    let mut operators: Vec<OperatorRecord> = vec![operator(100, 0), operator(101, 0)];
    let before = operators.len() as u32;
    for n in 0..5u32 {
        let accounts = operator_accounts(registry(&operators, 0));
        let (added, _) = add_operator(&program(), &accounts, &operator_data(n, 0), &host(5, 6)).unwrap();
        assert_eq!(added.id, before + n);
        assert_eq!(added.header.operators_count, before + n + 1);
        assert_eq!(added.offset, HOLDER_ACCOUNT_SIZE + (before + n) as usize * 72);
        operators.push(added.record);
    }
    let stored = registry(&operators, 0);
    for (i, o) in operators.iter().enumerate() {
        assert_eq!(find_operator(&stored.data, o.version), Some((i as u32, *o)));
    }
    assert_eq!(find_operator(&stored.data, 77), None);
}

#[test]
fn stored_appends_are_read_back_in_order() {
    let mut holder = operator_accounts(registry(&[], 0)).remove(1);
    for n in 0..4u32 {
        let accounts = vec![wallet(admin()), holder.clone(), plain(a(0x0B)), plain(system())];
        let (added, effects) = add_operator(&program(), &accounts, &operator_data(50 + n, n), &host(5, 6)).unwrap();
        assert_eq!(added.id, n);
        // the account grows as the intents say, then the outcome is stored
        assert!(!store_operator(&added, &mut holder.data));
        for action in effects.actions {
            if let Action::Grow { new_size, .. } = action {
                holder.data.resize(new_size, 0);
            }
        }
        assert!(store_operator(&added, &mut holder.data));
        assert_eq!(HolderAccount::unpack(&holder.data), Some(added.header));
        for id in 0..=n {
            let (found, record) = find_operator(&holder.data, 50 + id).unwrap();
            assert_eq!(found, id);
            assert_eq!(record.max_networks_count, id);
        }
    }
    let mut root = fresh_root();
    root.max_networks_count = 0;
    let mut ledger = root_account(&root, &[]);
    for n in 0..3u32 {
        let accounts = vec![wallet(a(0x0B)), ledger.clone(), plain(a(0x40 + n as u8)), plain(system())];
        let (added, effects) =
            add_network(&program(), &accounts, &network_data(&network(a(0))), &host(5, 6)).unwrap();
        assert_eq!(added.id, n);
        for action in effects.actions {
            if let Action::Grow { new_size, .. } = action {
                ledger.data.resize(new_size, 0);
            }
        }
        assert!(store_network(&added, &mut ledger.data));
        for id in 0..=n {
            assert_eq!(read_network(&ledger.data, id).unwrap().validator, a(0x40 + id as u8));
        }
        assert_eq!(read_network(&ledger.data, n + 1), None);
    }
}

#[test]
fn an_operator_is_refused() {
    let h = host(5, 6);
    let data = operator_data(VERSION, 2);
    let ok = operator_accounts(registry(&[operator(1, 0)], 0));
    assert_eq!(err_of(add_operator(&program(), &ok[..3], &data, &h)), Failure::Custom(HypeError::InvalidAccountsNumber));
    assert_eq!(err_of(add_operator(&program(), &ok, &data[..40], &h)), Failure::Custom(HypeError::InvalidDataLength));
    let mut accounts = ok.clone();
    accounts[0].key = a(1);
    assert_eq!(err_of(add_operator(&program(), &accounts, &data, &h)), Failure::Custom(HypeError::InvalidHolderAdmin));
    let mut accounts = ok.clone();
    accounts[1].is_writable = false;
    assert_eq!(err_of(add_operator(&program(), &accounts, &data, &h)), Failure::Custom(HypeError::InvalidHolderAccount));
    let mut accounts = ok.clone();
    accounts[1].owner = a(1);
    assert_eq!(err_of(add_operator(&program(), &accounts, &data, &h)), Failure::Custom(HypeError::InvalidHolderAccount));
    let mut accounts = ok.clone();
    accounts[1].data[0] = 2;
    assert_eq!(err_of(add_operator(&program(), &accounts, &data, &h)), Failure::Custom(HypeError::InvalidHolderAccount));
    let mut accounts = ok.clone();
    accounts[1].data.truncate(100);
    assert_eq!(err_of(add_operator(&program(), &accounts, &data, &h)), Failure::Custom(HypeError::InvalidHolderAccount));
    // a version that is registered already
    assert_eq!(
        err_of(add_operator(&program(), &ok, &operator_data(1, 2), &h)),
        Failure::Custom(HypeError::InvalidNewOperatorAccount)
    );
}

#[test]
fn holder_checks() {
    let holder = registry(&[], 0);
    assert_eq!(check_holder_account(&holder, &program(), false), Ok(()));
    assert_eq!(check_holder_account(&holder, &program(), true), custom(HypeError::InvalidHolderAccount));
    assert_eq!(check_holder_account(&holder, &a(1), false), custom(HypeError::InvalidHolderAccount));
    assert_eq!(check_holder_admin(&wallet(admin()), &admin()), Ok(()));
    assert_eq!(check_holder_admin(&wallet(admin()), &a(1)), custom(HypeError::InvalidHolderAdmin));
    assert_eq!(check_holder_admin(&plain(admin()), &admin()), custom(HypeError::InvalidHolderAdmin));
}

// ---------------------------------------------------------------- root ledger

fn root_address(version: u32) -> (Address, u8) {
    derive_entry(&get_seed_by_tag(version, ROOT_TAG), &authority().0, &program()).unwrap()
}

fn base_mint(decimals: u8) -> AccountView {
    let mut data = vec![0u8; 82];
    data[44] = decimals;
    owned(a(0xB0), Address::new(TOKEN_PROGRAM_ID), data)
}

fn root_init_data(version: u32) -> Vec<u8> {
    let mut data = vec![2u8, 0, 0, 0];
    data.extend_from_slice(&version.to_le_bytes());
    data.extend_from_slice(&0.7f64.to_le_bytes());
    data.extend_from_slice(&1.0f64.to_le_bytes());
    data.extend_from_slice(&1_000_000u64.to_le_bytes());
    data.extend_from_slice(&0.01f64.to_le_bytes());
    data.extend_from_slice(&0.25f64.to_le_bytes());
    data.extend_from_slice(&0.0f64.to_le_bytes());
    data.extend_from_slice(&name32(b"https://"));
    data.extend_from_slice(&0x0102_0304u32.to_le_bytes());
    data.extend_from_slice(&1000u32.to_le_bytes());
    data.extend_from_slice(&0.1f64.to_le_bytes());
    data.extend_from_slice(&0.5f64.to_le_bytes());
    assert_eq!(data.len(), 112);
    data
}

fn root_init_accounts(token_program: [u8; 32]) -> Vec<AccountView> {
    vec![
        wallet(a(0x0B)),
        registry(&[operator(1, 0), operator(VERSION, 2)], 0),
        plain(root_address(VERSION).0),
        base_mint(1),
        plain(a(0xB1)),
        plain(a(0xF0)),
        plain(authority().0),
        plain(Address::new(token_program)),
        plain(system()),
    ]
}

fn fresh_root() -> RootAccount {
    RootAccount {
        tag: ROOT_TAG,
        version: VERSION,
        admin: a(0x0B),
        fee_wallet: a(0xF0),
        base_crncy_mint: a(0xB0),
        base_crncy_program_address: a(0xB1),
        clients_count: 0,
        tokens_count: 0,
        fees: 0,
        networks_count: 0,
        base_crncy_decs_factor: 10,
        slot: 6,
        time: 5,
        decimals: 1,
        supply: 0,
        tvl: 0,
        counter: 0,
        all_time_base_crncy_volume: 0,
        all_time_tokens_volume: 0,
        holder_fees: 0,
        init_price: 1.0f64.to_bits(),
        max_supply: 1_000_000,
        fee_ratio: 0.7f64.to_bits(),
        fee_rate: 0.01f64.to_bits(),
        creation_fee: 0.25f64.to_bits(),
        max_networks_count: 2,
        creation_time: 5,
        min_fee: 0.0f64.to_bits(),
        operator_name: name32(b"operator"),
        ref_duration: 1000,
        mask: 0x0102_0304,
        ref_discount: 0.1f64.to_bits(),
        ref_ratio: 0.5f64.to_bits(),
        url_prefix: name32(b"https://"),
    }
}

#[test]
fn a_root_ledger_is_bootstrapped() {
    for token_program in [TOKEN_PROGRAM_ID, TOKEN_2022_PROGRAM_ID] {
        let accounts = root_init_accounts(token_program);
        let (root, effects) = initialize_root(&program(), &accounts, &root_init_data(VERSION), &host(5, 6)).unwrap();
        assert_eq!(root, fresh_root());
        let (hype_auth, bump) = authority();
        let (root_key, root_bump) = root_address(VERSION);
        assert_eq!(
            effects.actions,
            vec![
                Action::CreateAccount {
                    payer: a(0x0B),
                    account: a(0xB1),
                    lamports: 2_039_280,
                    space: 165,
                    owner: Address::new(token_program),
                    signer: Signer::Wallet,
                },
                Action::InitializeHolding {
                    token_program: Address::new(token_program),
                    account: a(0xB1),
                    mint: a(0xB0),
                    owner: hype_auth,
                    signer: Signer::Program { bump },
                },
                Action::CreateAccount {
                    payer: a(0x0B),
                    account: root_key,
                    lamports: rent_exempt_minimum(ROOT_ACCOUNT_SIZE).unwrap(),
                    space: 392,
                    owner: program(),
                    signer: Signer::Tagged { version: VERSION, tag: ROOT_TAG, base: hype_auth, bump: root_bump },
                },
            ]
        );
        }
}

#[test]
fn the_root_bootstrap_is_refused() {
    let h = host(5, 6);
    let data = root_init_data(VERSION);
    let ok = root_init_accounts(TOKEN_PROGRAM_ID);
    assert_eq!(err_of(initialize_root(&program(), &ok[..8], &data, &h)), Failure::NotEnoughAccountKeys);
    let mut accounts = ok.clone();
    accounts[6].key = a(1);
    assert_eq!(err_of(initialize_root(&program(), &accounts, &data, &h)), Failure::Custom(HypeError::InvalidHypeAuthority));
    let mut accounts = ok.clone();
    accounts[7].key = a(1);
    assert_eq!(err_of(initialize_root(&program(), &accounts, &data, &h)), Failure::Custom(HypeError::InvalidTokenProgramId));
    let mut accounts = ok.clone();
    accounts[8].key = a(1);
    assert_eq!(err_of(initialize_root(&program(), &accounts, &data, &h)), Failure::Custom(HypeError::InvalidSystemProgramId));
    let mut accounts = ok.clone();
    accounts[1].is_writable = true;
    assert_eq!(err_of(initialize_root(&program(), &accounts, &data, &h)), Failure::Custom(HypeError::InvalidHolderAccount));
    assert_eq!(err_of(initialize_root(&program(), &ok, &data[..111], &h)), Failure::Custom(HypeError::InvalidDataLength));
    // an operator's authority that did not sign
    let mut accounts = ok.clone();
    accounts[0].is_signer = false;
    assert_eq!(err_of(initialize_root(&program(), &accounts, &data, &h)), Failure::Custom(HypeError::AdminSignatureRequired));
    // a version that is not registered
    assert_eq!(
        err_of(initialize_root(&program(), &ok, &root_init_data(5), &h)),
        Failure::Custom(HypeError::InvalidNewOperatorAccount)
    );
    // a version that is registered for another authority
    let mut accounts = ok.clone();
    accounts[0].key = a(1);
    assert_eq!(err_of(initialize_root(&program(), &accounts, &data, &h)), Failure::Custom(HypeError::InvalidNewOperatorAccount));
    // the version that belongs to no operator
    let mut accounts = ok.clone();
    accounts[1] = registry(&[operator(NO_VERSION, 0)], 0);
    accounts[2].key = root_address(NO_VERSION).0;
    assert_eq!(
        err_of(initialize_root(&program(), &accounts, &root_init_data(NO_VERSION), &h)),
        Failure::Custom(HypeError::InvalidNewOperatorAccount)
    );
    // a root ledger that exists already, or lies elsewhere
    let mut accounts = ok.clone();
    accounts[2].owner = program();
    assert_eq!(err_of(initialize_root(&program(), &accounts, &data, &h)), Failure::Custom(HypeError::InvalidAccountKey));
    let mut accounts = ok.clone();
    accounts[2].key = root_address(1).0;
    assert_eq!(err_of(initialize_root(&program(), &accounts, &data, &h)), Failure::Custom(HypeError::InvalidAccountKey));
    let mut accounts = ok.clone();
    accounts[3].data.truncate(44);
    assert_eq!(err_of(initialize_root(&program(), &accounts, &data, &h)), Failure::Custom(HypeError::InvalidBaseCrncyMint));
    let mut accounts = ok.clone();
    accounts[3].data[44] = 10;
    assert_eq!(err_of(initialize_root(&program(), &accounts, &data, &h)), Failure::Custom(HypeError::ArithmeticOverflow));
    assert_eq!(
        err_of(initialize_root_with(&program(), &ok, &data, &h, None, Some(root_address(VERSION)))),
        Failure::Custom(HypeError::InvalidHypeAuthority)
    );
    assert_eq!(
        err_of(initialize_root_with(&program(), &ok, &data, &h, Some(authority()), None)),
        Failure::Custom(HypeError::InvalidAccountKey)
    );
}

#[test]
fn decimal_factors() {
    assert_eq!(decimals_factor(0), Some(1));
    assert_eq!(decimals_factor(1), Some(10));
    assert_eq!(decimals_factor(6), Some(1_000_000));
    assert_eq!(decimals_factor(9), Some(1_000_000_000));
    assert_eq!(decimals_factor(10), None);
    assert_eq!(decimals_factor(255), None);
}

fn network(validator: Address) -> NetworkRecord {
    let mut mask = [0u8; 64];
    mask[..17].copy_from_slice(b"#0123456789abcdef");
    NetworkRecord { max_length: 20, validator, descriptor: name32(b"Ethereum"), mask }
}

fn root_account(root: &RootAccount, networks: &[NetworkRecord]) -> AccountView {
    let mut data = root.pack();
    for n in networks {
        data.extend_from_slice(&n.pack());
    }
    let mut account = owned(root_address(root.version).0, program(), data);
    account.is_writable = true;
    account
}

fn network_data(n: &NetworkRecord) -> Vec<u8> {
    let mut data = vec![3u8, 0, 0, 0, 0, 0, 0, 0];
    data.extend_from_slice(&n.descriptor);
    data.extend_from_slice(&n.mask);
    data.extend_from_slice(&n.max_length.to_le_bytes());
    assert_eq!(data.len(), 112);
    data
}

fn network_accounts(root: &RootAccount, networks: &[NetworkRecord]) -> Vec<AccountView> {
    vec![wallet(a(0x0B)), root_account(root, networks), plain(a(0x0E)), plain(system())]
}

#[test]
fn a_network_is_appended() {
    let accounts = network_accounts(&fresh_root(), &[]);
    let mut h = host(50, 60);
    h.network_rent = 11_000_000;
    let (added, effects) = add_network(&program(), &accounts, &network_data(&network(a(0x0E))), &h).unwrap();
    assert_eq!(added.id, 0);
    assert_eq!(added.offset, 392);
    assert_eq!(added.record, network(a(0x0E)));
    let mut expected = fresh_root();
    expected.networks_count = 1;
    expected.time = 50;
    expected.slot = 60;
    assert_eq!(added.header, expected);
    assert_eq!(
        intents(&effects),
        vec![
            Action::Fund { from: a(0x0B), to: accounts[1].key, lamports: 1_000_000 },
            Action::Grow { account: accounts[1].key, new_size: 528 },
        ]
    );
    assert_eq!(
        events(&effects),
        vec![Event::NewNetwork { network_id: 0, descriptor: name32(b"Ethereum"), time: 50, slot: 60 }]
    );
    // the registration is logged before room is made for the record
    assert_eq!(places(&effects), vec![0]);
    assert_eq!(effects.actions.len(), 3);
    // a ledger that is funded already only grows
    h.network_rent = 10_000_000;
    let (_, effects) = add_network(&program(), &accounts, &network_data(&network(a(0x0E))), &h).unwrap();
    assert_eq!(intents(&effects), vec![Action::Grow { account: accounts[1].key, new_size: 528 }]);
    // and one that has room does not even grow
    let mut roomy = accounts.clone();
    roomy[1].data.extend_from_slice(&[0u8; 136]);
    let (_, effects) = add_network(&program(), &roomy, &network_data(&network(a(0x0E))), &h).unwrap();
    assert!(intents(&effects).is_empty());
    assert_eq!(required_network_len(0), Some(528));
    assert_eq!(required_network_len(1), Some(664));
    assert_eq!(required_network_len(u32::MAX), None);
}

#[test]
fn a_third_network_exceeds_a_cap_of_two() {
    let h = host(50, 60);
    let mut root = fresh_root();
    assert_eq!(root.max_networks_count, 2);
    let mut networks: Vec<NetworkRecord> = vec![];
    for id in 0..2u32 {
        let accounts = network_accounts(&root, &networks);
        let (added, _) = add_network(&program(), &accounts, &network_data(&network(a(0x0E))), &h).unwrap();
        assert_eq!(added.id, id);
        assert_eq!(added.header.networks_count, id + 1);
        assert_eq!(added.offset, 392 + 136 * id as usize);
        root = added.header;
        networks.push(added.record);
    }
    let accounts = network_accounts(&root, &networks);
    assert_eq!(
        err_of(add_network(&program(), &accounts, &network_data(&network(a(0x0E))), &h)),
        Failure::Custom(HypeError::MaxNetworksCountExceeded)
    );
    // a cap of zero is no cap
    root.max_networks_count = 0;
    let accounts = network_accounts(&root, &networks);
    let (added, _) = add_network(&program(), &accounts, &network_data(&network(a(0x0E))), &h).unwrap();
    assert_eq!(added.id, 2);
    // a cap of one is reached by the first network
    let mut root = fresh_root();
    root.max_networks_count = 1;
    assert!(add_network(&program(), &network_accounts(&root, &[]), &network_data(&network(a(0x0E))), &h).is_ok());
    root.networks_count = 1;
    assert_eq!(
        err_of(add_network(&program(), &network_accounts(&root, &[network(a(0x0E))]), &network_data(&network(a(0x0E))), &h)),
        Failure::Custom(HypeError::MaxNetworksCountExceeded)
    );
}

#[test]
fn a_network_is_refused() {
    let h = host(50, 60);
    let data = network_data(&network(a(0x0E)));
    let ok = network_accounts(&fresh_root(), &[]);
    assert_eq!(err_of(add_network(&program(), &ok[..3], &data, &h)), Failure::NotEnoughAccountKeys);
    let mut accounts = ok.clone();
    accounts[0].is_signer = false;
    assert_eq!(err_of(add_network(&program(), &accounts, &data, &h)), Failure::Custom(HypeError::AdminSignatureRequired));
    let mut accounts = ok.clone();
    accounts[1].owner = a(1);
    assert_eq!(err_of(add_network(&program(), &accounts, &data, &h)), Failure::IncorrectProgramId);
    let mut accounts = ok.clone();
    accounts[1].data[0] = 3;
    assert_eq!(err_of(add_network(&program(), &accounts, &data, &h)), Failure::Custom(HypeError::InvalidAccountTag));
    let mut accounts = ok.clone();
    accounts[1].data.truncate(391);
    assert_eq!(err_of(add_network(&program(), &accounts, &data, &h)), Failure::Custom(HypeError::InvalidAccountTag));
    let mut accounts = ok.clone();
    accounts[0].key = a(1);
    assert_eq!(err_of(add_network(&program(), &accounts, &data, &h)), Failure::Custom(HypeError::InvalidAdmin));
    assert_eq!(err_of(add_network(&program(), &ok, &data[..111], &h)), Failure::Custom(HypeError::InvalidDataLength));
    let mut full = fresh_root();
    full.networks_count = u32::MAX;
    full.max_networks_count = 0;
    assert_eq!(
        err_of(add_network(&program(), &network_accounts(&full, &[]), &data, &h)),
        Failure::Custom(HypeError::ArithmeticOverflow)
    );
    full.networks_count = u32::MAX - 1;
    assert_eq!(err_of(add_network(&program(), &network_accounts(&full, &[]), &data, &h)), Failure::InvalidRealloc);
}

#[test]
fn growth_funds_what_is_missing() {
    let mut account = owned(a(1), program(), vec![0; 10]);
    account.lamports = 70;
    assert_eq!(grow(&a(2), &account, 10, 100, true), vec![]);
    assert_eq!(
        grow(&a(2), &account, 11, 100, false),
        vec![Action::Fund { from: a(2), to: a(1), lamports: 30 }, Action::Grow { account: a(1), new_size: 11 }]
    );
    assert_eq!(grow(&a(2), &account, 11, 70, false), vec![Action::Grow { account: a(1), new_size: 11 }]);
    assert_eq!(
        grow(&a(2), &account, 11, 60, true),
        vec![Action::Fund { from: a(2), to: a(1), lamports: 0 }, Action::Grow { account: a(1), new_size: 11 }]
    );
}

#[test]
fn root_ledgers_are_read_by_tag_and_owner() {
    let account = root_account(&fresh_root(), &[network(a(0x0E))]);
    assert_eq!(load_root(&program(), &account), Ok(fresh_root()));
    assert_eq!(load_root(&a(1), &account), Err(Failure::IncorrectProgramId));
    assert_eq!(load_tagged_root(&account.data), Ok(fresh_root()));
    assert_eq!(load_tagged_root(&account.data[..391]), custom(HypeError::InvalidAccountTag));
    let mut tagged = fresh_root();
    tagged.tag = CLIENT_TAG;
    assert_eq!(load_tagged_root(&tagged.pack()), custom(HypeError::InvalidAccountTag));
    // the record is only read where the header counts it
    assert_eq!(read_network(&account.data, 0), None);
    let mut counted = fresh_root();
    counted.networks_count = 1;
    let account = root_account(&counted, &[network(a(0x0E))]);
    assert_eq!(read_network(&account.data, 0), Some(network(a(0x0E))));
    assert_eq!(read_network(&account.data, 1), None);
    assert_eq!(read_network(&account.data[..527], 0), None);
}

// ---------------------------------------------------------------- trades

const W: u8 = 0x11;

struct Scene {
    root: RootAccount,
    networks: Vec<NetworkRecord>,
    client: Option<ClientAccount>,
    token: Option<TokenAccount>,
    mint_supply: Option<u64>,
    referrer: Option<Address>,
    reserve_owner: Address,
    address: [u8; 24],
}

fn token_address() -> [u8; 24] {
    let mut address = [0u8; 24];
    address[..10].copy_from_slice(b"dead00beef");
    address
}

fn scene() -> Scene {
    let mut root = fresh_root();
    root.networks_count = 1;
    Scene {
        root,
        networks: vec![network(a(0x0E))],
        client: None,
        token: None,
        mint_supply: None,
        referrer: None,
        reserve_owner: Address::new(TOKEN_PROGRAM_ID),
        address: token_address(),
    }
}

fn client_address() -> (Address, u8) {
    derive_entry(&get_seed_by_tag(VERSION, CLIENT_TAG), &a(W), &program()).unwrap()
}

fn token_record_address(network: u32, address: &[u8; 24]) -> (Address, u8) {
    derive_entry(&get_token_seed_bytes(VERSION, network, address), &authority().0, &program()).unwrap()
}

fn hype_mint() -> Address {
    a(0xEE)
}

fn spl_mint(supply: u64) -> Vec<u8> {
    let mut data = vec![0u8; 234];
    data[36..44].copy_from_slice(&supply.to_le_bytes());
    data
}

impl Scene {
    fn accounts(&self) -> Vec<AccountView> {
        let token_program = Address::new(TOKEN_PROGRAM_ID);
        let token_2022 = Address::new(TOKEN_2022_PROGRAM_ID);
        let base = self.root.base_crncy_mint;
        let client = match &self.client {
            Some(c) => owned(client_address().0, program(), c.pack()),
            None => plain(client_address().0),
        };
        let token = match &self.token {
            Some(t) => owned(token_record_address(0, &self.address).0, program(), t.pack()),
            None => plain(token_record_address(0, &self.address).0),
        };
        let mint = match self.mint_supply {
            Some(s) => owned(hype_mint(), token_2022, spl_mint(s)),
            None => plain(hype_mint()),
        };
        let (referrer, referrer_tokens) = match self.referrer {
            Some(r) => {
                let mut account = wallet(r);
                account.is_signer = false;
                (account, plain(get_associated_token_address(&r, &base, &token_program).unwrap()))
            }
            None => (plain(system()), plain(a(0))),
        };
        let accounts = vec![
            wallet(a(W)),
            client,
            owned(get_associated_token_address(&a(W), &base, &token_program).unwrap(), token_program, vec![0; 165]),
            plain(get_associated_token_address(&a(W), &hype_mint(), &token_2022).unwrap()),
            root_account(&self.root, &self.networks),
            token,
            base_mint(1),
            owned(self.root.base_crncy_program_address, self.reserve_owner, vec![0; 165]),
            mint,
            plain(a(0xC0)),
            plain(authority().0),
            plain(token_program),
            plain(token_2022),
            plain(system()),
            plain(Address::new(ASSOCIATED_TOKEN_PROGRAM_ID)),
            referrer,
            referrer_tokens,
        ];
        assert_eq!(accounts.len(), TRADE_ACCOUNTS);
        accounts
    }

    fn mint_data(&self, amount: u64, max_cost: u64) -> Vec<u8> {
        let mut data = vec![4u8, 0, 0, 0, 0, 0, 0, 0];
        data.extend_from_slice(&self.address);
        data.extend_from_slice(&amount.to_le_bytes());
        data.extend_from_slice(&max_cost.to_le_bytes());
        data.extend_from_slice(&name32(b"nick"));
        assert_eq!(data.len(), 80);
        data
    }

    fn burn_data(&self, amount: u64, min_cashout: u64) -> Vec<u8> {
        let mut data = vec![5u8, 0, 0, 0, 0, 0, 0, 0];
        data.extend_from_slice(&amount.to_le_bytes());
        data.extend_from_slice(&min_cashout.to_le_bytes());
        data.extend_from_slice(&name32(b"nick"));
        assert_eq!(data.len(), 56);
        data
    }

    fn mint(&self, amount: u64, max_cost: u64, time: u32) -> Result<(Trade, Effects), Failure> {
        mint(&program(), &self.accounts(), &self.mint_data(amount, max_cost), &Clock { slot: 600, time })
    }

    fn burn(&self, amount: u64, min_cashout: u64, time: u32) -> Result<(Trade, Effects), Failure> {
        burn(&program(), &self.accounts(), &self.burn_data(amount, min_cashout), &Clock { slot: 700, time })
    }

    fn after(&self, trade: &Trade) -> Scene {
        Scene {
            root: trade.root,
            networks: self.networks.clone(),
            client: Some(trade.client),
            token: Some(trade.token),
            mint_supply: Some(trade.token.supply),
            referrer: self.referrer,
            reserve_owner: self.reserve_owner,
            address: self.address,
        }
    }
}

fn expected_client(time: u32, referrer: Address, ref_stop: u32) -> ClientAccount {
    ClientAccount {
        tag: CLIENT_TAG,
        version: VERSION,
        id: 0,
        wallet: a(W),
        all_time_base_crncy_volume: 0,
        all_time_tokens_volume: 0,
        slot: 600,
        time,
        tokens_created: 0,
        ref_stop,
        all_time_trades_count: 0,
        nickname: name32(b"nick"),
        ref_address: referrer,
        ref_paid: 0,
        ref_discount: 0.1f64.to_bits(),
        ref_ratio: 0.5f64.to_bits(),
    }
}

#[test]
fn context_of_a_first_trade_creates_the_client() {
    let s = scene();
    let accounts = s.accounts();
    let (ctx, effects) =
        Context::new(&program(), &accounts, &s.mint_data(1, 0), 48, &Clock { slot: 600, time: 500 }).unwrap();
    assert!(ctx.client_created);
    assert_eq!(ctx.client, expected_client(500, system(), 500));
    assert_eq!(ctx.root.clients_count, 1);
    assert_eq!(ctx.root.counter, 1);
    assert_eq!((ctx.hype_auth, ctx.hype_bump_seed), authority());
    assert_eq!((ctx.slot, ctx.time), (600, 500));
    let (key, bump) = client_address();
    assert_eq!(
        intents(&effects),
        vec![Action::CreateAccount {
            payer: a(W),
            account: key,
            lamports: rent_exempt_minimum(CLIENT_ACCOUNT_SIZE).unwrap(),
            space: 176,
            owner: program(),
            signer: Signer::Tagged { version: VERSION, tag: CLIENT_TAG, base: a(W), bump },
        }]
    );
    assert_eq!(
        events(&effects),
        vec![Event::NewClient { client_id: 0, order_id: 0, wallet: a(W), time: 500, slot: 600 }]
    );
    // the new client is logged once its account is created
    assert_eq!(places(&effects), vec![1]);
}

#[test]
fn the_referral_window_opens_for_a_funded_referrer_only() {
    let mut s = scene();
    s.referrer = Some(a(0x0F));
    let clock = Clock { slot: 600, time: 500 };
    let (ctx, _) = Context::new(&program(), &s.accounts(), &s.mint_data(1, 0), 48, &clock).unwrap();
    assert_eq!(ctx.client, expected_client(500, a(0x0F), 1500));
    let mut accounts = s.accounts();
    accounts[REFERRER].lamports = 0;
    let (ctx, _) = Context::new(&program(), &accounts, &s.mint_data(1, 0), 48, &clock).unwrap();
    assert_eq!(ctx.client, expected_client(500, a(0x0F), 500));
    let late = Clock { slot: 600, time: u32::MAX - 999 };
    assert_eq!(
        err_of(Context::new(&program(), &s.accounts(), &s.mint_data(1, 0), 48, &late)),
        Failure::Custom(HypeError::ArithmeticOverflow)
    );
}

#[test]
fn context_of_a_later_trade_reads_the_client() {
    let mut s = scene();
    let mut client = expected_client(100, a(0x0F), 1100);
    client.id = 5;
    s.client = Some(client);
    let (ctx, effects) =
        Context::new(&program(), &s.accounts(), &s.mint_data(1, 0), 48, &Clock { slot: 600, time: 500 }).unwrap();
    assert!(!ctx.client_created);
    assert_eq!(ctx.client, client);
    assert_eq!(ctx.root, s.root);
    assert!(effects.actions.is_empty());
}

#[test]
fn context_assembly_is_refused() {
    let mut s = scene();
    s.referrer = Some(a(0x0F));
    let ok = s.accounts();
    let data = s.mint_data(1, 0);
    let clock = Clock { slot: 600, time: 500 };
    let check = |accounts: &Vec<AccountView>| err_of(Context::new(&program(), accounts, &data, 48, &clock));
    assert_eq!(err_of(Context::new(&program(), &ok[..16], &data, 48, &clock)), Failure::NotEnoughAccountKeys);
    let with = |index: usize, change: &dyn Fn(&mut AccountView)| {
        let mut accounts = ok.clone();
        change(&mut accounts[index]);
        accounts
    };
    assert_eq!(check(&with(REFERRER_TOKENS, &|x| x.key = a(1))), Failure::Custom(HypeError::InvalidRefAddress));
    assert_eq!(check(&with(TOKEN_PROGRAM, &|x| x.key = Address::new(TOKEN_2022_PROGRAM_ID))), Failure::Custom(HypeError::InvalidRefAddress));
    let plain_scene = scene();
    let unreferred = plain_scene.accounts();
    let with = |index: usize, change: &dyn Fn(&mut AccountView)| {
        let mut accounts = unreferred.clone();
        change(&mut accounts[index]);
        accounts
    };
    assert_eq!(check(&with(TOKEN_PROGRAM, &|x| x.key = a(1))), Failure::Custom(HypeError::InvalidTokenProgramId));
    assert_eq!(check(&with(12, &|x| x.key = a(1))), Failure::Custom(HypeError::InvalidToken2022ProgramId));
    assert_eq!(check(&with(14, &|x| x.key = a(1))), Failure::Custom(HypeError::InvalidAssociatedTokenId));
    assert_eq!(check(&with(13, &|x| x.key = a(1))), Failure::Custom(HypeError::InvalidSystemProgramId));
    assert_eq!(check(&with(ROOT, &|x| x.owner = a(1))), Failure::IncorrectProgramId);
    assert_eq!(check(&with(ROOT, &|x| x.data[0] = 7)), Failure::Custom(HypeError::InvalidAccountTag));
    assert_eq!(check(&with(BASE_MINT, &|x| x.key = a(1))), Failure::Custom(HypeError::InvalidBaseCrncyMint));
    assert_eq!(check(&with(RESERVE, &|x| x.key = a(1))), Failure::Custom(HypeError::InvalidBaseCrncyProgramAddress));
    assert_eq!(check(&with(CLIENT_TOKENS, &|x| x.key = a(1))), Failure::Custom(HypeError::InvalidAssociatedTokenAddress));
    assert_eq!(check(&with(CLIENT_HYPE, &|x| x.key = a(1))), Failure::Custom(HypeError::InvalidAssociatedTokenAddress));
    assert_eq!(check(&with(HYPE_MINT, &|x| x.key = a(1))), Failure::Custom(HypeError::InvalidAssociatedTokenAddress));
    assert_eq!(check(&with(CLIENT, &|x| x.key = a(1))), Failure::Custom(HypeError::InvalidAccountKey));
    assert_eq!(check(&with(CLIENT, &|x| x.owner = a(1))), Failure::Custom(HypeError::InvalidClientAccount));
    assert_eq!(check(&with(CLIENT, &|x| x.owner = program())), Failure::Custom(HypeError::InvalidClientAccount));
    assert_eq!(check(&with(AUTHORITY, &|x| x.key = a(1))), Failure::Custom(HypeError::InvalidHypeAuthority));
    assert_eq!(
        err_of(Context::new(&program(), &unreferred, &data[..79], 48, &clock)),
        Failure::Custom(HypeError::InvalidDataLength)
    );
    assert_eq!(
        err_of(Context::new(&program(), &unreferred, &data, usize::MAX, &clock)),
        Failure::Custom(HypeError::InvalidDataLength)
    );
    // a client account of another wallet
    let mut other = scene();
    let mut client = expected_client(100, system(), 100);
    client.wallet = a(1);
    other.client = Some(client);
    assert_eq!(check(&other.accounts()), Failure::Custom(HypeError::InvalidClientAccount));
    let mut full = scene();
    full.root.clients_count = u64::MAX;
    assert_eq!(check(&full.accounts()), Failure::Custom(HypeError::ArithmeticOverflow));
}

#[test]
fn a_first_mint_lists_the_token() {
    let s = scene();
    let accounts = s.accounts();
    let (trade, effects) = s.mint(100_000, 0, 500).unwrap();
    assert!(trade.client_created && trade.token_created);
    assert_eq!(trade.amount, 100_000);
    assert_eq!(trade.base_amount, 111_111);
    assert_eq!(trade.total_fee, 11_113);
    assert_eq!(trade.fees, FeeSplit { holder: 3_333, operator: 7_780, referral: 0 });

    let mut root = s.root;
    root.clients_count = 1;
    root.tokens_count = 1;
    root.counter = 2;
    root.fees = 7_780;
    root.holder_fees = 3_333;
    root.supply = 100_000;
    root.tvl = 111_111;
    root.all_time_base_crncy_volume = 111_111;
    root.all_time_tokens_volume = 100_000;
    root.slot = 600;
    root.time = 500;
    assert_eq!(trade.root, root);

    let mut client = expected_client(500, system(), 500);
    client.tokens_created = 1;
    client.all_time_trades_count = 1;
    client.all_time_base_crncy_volume = 111_111;
    client.all_time_tokens_volume = 100_000;
    assert_eq!(trade.client, client);

    let token = TokenAccount {
        tag: TOKEN_TAG,
        version: VERSION,
        id: 0,
        mint: hype_mint(),
        program_address: a(0xC0),
        creator: a(W),
        creation_time: 500,
        time: 500,
        supply: 100_000,
        address: token_address(),
        network: 0,
        reserved: 0,
        slot: 600,
        all_time_trades_count: 1,
        all_time_base_crncy_volume: 111_111,
        all_time_tokens_volume: 100_000,
        status: NOT_CHECKED,
    };
    assert_eq!(trade.token, token);

    let (hype_auth, bump) = authority();
    let program_signs = Signer::Program { bump };
    let token_2022 = Address::new(TOKEN_2022_PROGRAM_ID);
    let (client_key, client_bump) = client_address();
    let (token_key, token_bump) = token_record_address(0, &token_address());
    assert_eq!(
        intents(&effects),
        vec![
            Action::CreateAccount {
                payer: a(W),
                account: client_key,
                lamports: rent_exempt_minimum(CLIENT_ACCOUNT_SIZE).unwrap(),
                space: 176,
                owner: program(),
                signer: Signer::Tagged { version: VERSION, tag: CLIENT_TAG, base: a(W), bump: client_bump },
            },
            Action::CreateAccount {
                payer: a(W),
                account: token_key,
                lamports: rent_exempt_minimum(TOKEN_ACCOUNT_SIZE).unwrap(),
                space: 216,
                owner: program(),
                signer: Signer::Token {
                    version: VERSION,
                    network: 0,
                    address: token_address(),
                    base: hype_auth,
                    bump: token_bump,
                },
            },
            Action::CreateAccount {
                payer: a(W),
                account: hype_mint(),
                lamports: rent_exempt_minimum(mint_account_len(&token_address(), &name32(b"Ethereum"), &authority().0, &hype_mint())).unwrap(),
                space: 234,
                owner: token_2022,
                signer: Signer::Wallet,
            },
            Action::InitializeMetadataPointer { mint: hype_mint(), authority: hype_auth, metadata: hype_mint() },
            Action::InitializeMint { mint: hype_mint(), authority: hype_auth, decimals: 1, signer: program_signs },
            Action::InitializeMetadata {
                mint: hype_mint(),
                authority: hype_auth,
                address: token_address(),
                descriptor: name32(b"Ethereum"),
                signer: program_signs,
            },
            Action::CreateAccount {
                payer: a(W),
                account: a(0xC0),
                lamports: 2_039_280,
                space: 165,
                owner: token_2022,
                signer: Signer::Wallet,
            },
            Action::InitializeHolding {
                token_program: token_2022,
                account: a(0xC0),
                mint: hype_mint(),
                owner: hype_auth,
                signer: program_signs,
            },
            Action::CreateAssociatedAccount {
                funder: a(W),
                wallet: a(W),
                mint: hype_mint(),
                token_program: token_2022,
            },
            Action::Transfer {
                token_program: Address::new(TOKEN_PROGRAM_ID),
                source: accounts[CLIENT_TOKENS].key,
                mint: a(0xB0),
                destination: a(0xB1),
                authority: a(W),
                amount: 111_111 + 7_780 + 3_333,
                decimals: 0,
                checked: false,
                signer: Signer::Wallet,
            },
            Action::MintTo {
                mint: hype_mint(),
                destination: accounts[CLIENT_HYPE].key,
                authority: hype_auth,
                amount: 100_000,
                signer: program_signs,
            },
        ]
    );
    assert_eq!(
        events(&effects),
        vec![
            Event::NewClient { client_id: 0, order_id: 0, wallet: a(W), time: 500, slot: 600 },
            Event::NewToken {
                client_id: 0,
                order_id: 1,
                token_id: 0,
                network_id: 0,
                mint: hype_mint(),
                creator: a(W),
                address: token_address(),
                time: 500,
                slot: 600,
            },
            Event::Mint(TradeRecord {
                client_id: 0,
                order_id: 2,
                token_id: 0,
                network_id: 0,
                mint: hype_mint(),
                creator: a(W),
                wallet: a(W),
                address: token_address(),
                creation_time: 500,
                supply: 100_000,
                all_time_trades_count: 1,
                all_time_base_crncy_volume: 111_111,
                all_time_tokens_volume: 100_000,
                tokens_amount: 100_000,
                base_crncy_amount: 111_111,
                time: 500,
                slot: 600,
            }),
        ]
    );
    // each event at its place: the client after its account, the token after its accounts
    // are set up, the trade at the end
    assert_eq!(places(&effects), vec![1, 9, effects.actions.len() - 1]);
    assert!(matches!(effects.actions[0], Action::CreateAccount { .. }));
    assert!(matches!(effects.actions[8], Action::InitializeHolding { .. }));
    assert!(matches!(effects.actions[effects.actions.len() - 2], Action::MintTo { .. }));
}

#[test]
fn a_later_mint_only_trades() {
    let first = scene();
    let (trade, _) = first.mint(100_000, 0, 500).unwrap();
    let s = first.after(&trade);
    let mut accounts = s.accounts();
    accounts[CLIENT_HYPE].owner = Address::new(TOKEN_2022_PROGRAM_ID);
    let (second, effects) =
        mint(&program(), &accounts, &s.mint_data(50_000, 65_359), &Clock { slot: 601, time: 900 }).unwrap();
    assert!(!second.client_created && !second.token_created);
    assert_eq!(second.base_amount, 65_359);
    assert_eq!(second.total_fee, 6_535);
    assert_eq!(second.fees, FeeSplit { holder: 1_960, operator: 4_575, referral: 0 });
    assert_eq!(second.root.supply, 150_000);
    assert_eq!(second.root.tvl, 111_111 + 65_359);
    assert_eq!(second.root.fees, 7_780 + 4_575);
    assert_eq!(second.root.holder_fees, 3_333 + 1_960);
    assert_eq!(second.root.counter, 3);
    assert_eq!(second.root.tokens_count, 1);
    assert_eq!(second.root.clients_count, 1);
    assert_eq!(second.token.supply, 150_000);
    assert_eq!(second.token.all_time_trades_count, 2);
    assert_eq!(second.token.creation_time, 500);
    assert_eq!(second.token.time, 900);
    assert_eq!(second.client.all_time_trades_count, 2);
    assert_eq!(second.client.all_time_tokens_volume, 150_000);
    assert_eq!(second.client.tokens_created, 1);
    assert_eq!(intents(&effects).len(), 2);
    assert_eq!(
        intents(&effects)[0],
        Action::Transfer {
            token_program: Address::new(TOKEN_PROGRAM_ID),
            source: accounts[CLIENT_TOKENS].key,
            mint: a(0xB0),
            destination: a(0xB1),
            authority: a(W),
            amount: 65_359 + 6_535,
            decimals: 0,
            checked: false,
            signer: Signer::Wallet,
        }
    );
    assert_eq!(events(&effects).len(), 1);
    assert_eq!(places(&effects), vec![2]);
}

#[test]
fn a_mint_in_the_referral_window_pays_the_referrer() {
    let mut s = scene();
    s.referrer = Some(a(0x0F));
    s.reserve_owner = Address::new(TOKEN_2022_PROGRAM_ID);
    let accounts = s.accounts();
    let (trade, effects) = s.mint(100_000, 0, 500).unwrap();
    assert_eq!(trade.total_fee, 11_113);
    assert_eq!(trade.fees, FeeSplit { holder: 3_333, operator: 3_334, referral: 3_334 });
    assert_eq!(trade.client.ref_paid, 3_334);
    assert_eq!(trade.client.ref_stop, 1_500);
    assert_eq!(trade.root.fees, 3_334);
    assert_eq!(trade.root.holder_fees, 3_333);
    let n = intents(&effects).len();
    assert_eq!(
        intents(&effects)[n - 4],
        Action::CreateAssociatedAccount {
            funder: a(W),
            wallet: a(0x0F),
            mint: a(0xB0),
            token_program: Address::new(TOKEN_PROGRAM_ID),
        }
    );
    let pay = |destination: Address, amount: u64| Action::Transfer {
        token_program: Address::new(TOKEN_2022_PROGRAM_ID),
        source: accounts[CLIENT_TOKENS].key,
        mint: a(0xB0),
        destination,
        authority: a(W),
        amount,
        decimals: 1,
        checked: true,
        signer: Signer::Wallet,
    };
    assert_eq!(intents(&effects)[n - 3], pay(a(0xB1), 111_111 + 3_334 + 3_333));
    assert_eq!(intents(&effects)[n - 2], pay(accounts[REFERRER_TOKENS].key, 3_334));

    // once the window is closed the operator takes the referrer's share
    let later = s.after(&trade);
    let (second, effects) = later.mint(50_000, 0, 1_500).unwrap();
    assert_eq!(second.fees, FeeSplit { holder: 1_960, operator: 4_575, referral: 0 });
    assert_eq!(second.client.ref_paid, 3_334);
    assert_eq!(intents(&effects).len(), 3);
    // inside the window, with another referrer than the bound one, no referral is paid either
    let mut other = s.after(&trade);
    other.referrer = Some(a(0x10));
    assert_eq!(other.mint(50_000, 0, 1_499).unwrap().0.fees, FeeSplit { holder: 1_960, operator: 4_575, referral: 0 });
    // inside the window, with the bound referrer
    let (third, _) = later.mint(50_000, 0, 1_499).unwrap();
    assert_eq!(third.fees, FeeSplit { holder: 1_960, operator: 1_961, referral: 1_960 });
    assert_eq!(third.client.ref_paid, 3_334 + 1_960);
}

#[test]
fn a_mint_is_refused() {
    let s = scene();
    let e = |r: Result<(Trade, Effects), Failure>| err_of(r);
    assert_eq!(e(s.mint(0, 0, 500)), Failure::Custom(HypeError::TooSmallQuantity));
    assert_eq!(e(s.mint(100_000, 111_110, 500)), Failure::Custom(HypeError::MaxTradeCostExceeded));
    assert!(s.mint(100_000, 111_111, 500).is_ok());
    assert_eq!(e(s.mint(1_000_000, 0, 500)), Failure::Custom(HypeError::InvalidSupply));
    assert_eq!(e(s.mint(u64::MAX, 0, 500)), Failure::Custom(HypeError::InvalidSupply));
    let accounts = s.accounts();
    let clock = Clock { slot: 600, time: 500 };
    let data = s.mint_data(100_000, 0);
    assert_eq!(e(mint(&program(), &accounts, &data[..47], &clock)), Failure::Custom(HypeError::InvalidDataLength));
    assert_eq!(e(mint(&program(), &accounts[..16], &data, &clock)), Failure::NotEnoughAccountKeys);
    let mut wrong_network = data.clone();
    wrong_network[4] = 1;
    assert_eq!(e(mint(&program(), &accounts, &wrong_network, &clock)), Failure::Custom(HypeError::InvalidNetworkId));
    let mut moved = accounts.clone();
    moved[TOKEN].key = a(1);
    assert_eq!(e(mint(&program(), &moved, &data, &clock)), Failure::Custom(HypeError::InvalidAccountKey));
    let mut minted = accounts.clone();
    minted[HYPE_MINT].owner = Address::new(TOKEN_2022_PROGRAM_ID);
    assert_eq!(e(mint(&program(), &minted, &data, &clock)), Failure::Custom(HypeError::InvalidTokenMint));
    // an address that the network's mask does not admit
    let mut upper = scene();
    upper.address[..10].copy_from_slice(b"DEAD00BEEF");
    assert_eq!(e(upper.mint(100_000, 0, 500)), Failure::Custom(HypeError::InvalidAddress));
    // an address that is too long for the network
    let mut long = scene();
    long.address = [b'a'; 24];
    assert_eq!(e(long.mint(100_000, 0, 500)), Failure::Custom(HypeError::InvalidAddress));
    // a token record of another program, of another mint, of another network
    let (trade, _) = s.mint(100_000, 0, 500).unwrap();
    let listed = s.after(&trade);
    let mut stolen = listed.accounts();
    stolen[TOKEN].owner = a(1);
    assert_eq!(e(mint(&program(), &stolen, &data, &clock)), Failure::Custom(HypeError::InvalidTokenAccount));
    let mut other = s.after(&trade);
    other.token.as_mut().unwrap().mint = a(1);
    assert_eq!(e(other.mint(1, 0, 500)), Failure::Custom(HypeError::InvalidTokenAccount));
    let mut other = s.after(&trade);
    other.token.as_mut().unwrap().network = 1;
    assert_eq!(e(other.mint(1, 0, 500)), Failure::Custom(HypeError::InvalidNetworkId));
    // a mint whose supply is not the one on record
    let mut drifted = s.after(&trade);
    drifted.mint_supply = Some(99_999);
    assert_eq!(e(drifted.mint(1, 0, 500)), Failure::Custom(HypeError::InvalidTokenSupply));
    let mut short = listed.accounts();
    short[HYPE_MINT].data.truncate(43);
    assert_eq!(e(mint(&program(), &short, &data, &clock)), Failure::Custom(HypeError::InvalidTokenSupply));
    // the tokens of a root ledger together may not pass the maximum supply
    let mut crowded = s.after(&trade);
    crowded.root.supply = 999_990;
    assert!(crowded.mint(10, 0, 500).is_ok());
    assert_eq!(crowded.mint(10, 0, 500).unwrap().0.root.supply, 1_000_000);
    assert_eq!(e(crowded.mint(11, 0, 500)), Failure::Custom(HypeError::InvalidSupply));
    crowded.root.supply = 1_000_000;
    assert_eq!(e(crowded.mint(1, 0, 500)), Failure::Custom(HypeError::InvalidSupply));
    crowded.root.supply = u64::MAX;
    assert_eq!(e(crowded.mint(1, 0, 500)), Failure::Custom(HypeError::InvalidSupply));
    // totals that do not fit
    let mut full = s.after(&trade);
    full.root.tvl = u64::MAX;
    assert_eq!(e(full.mint(1, 0, 500)), Failure::Custom(HypeError::ArithmeticOverflow));
    let mut full = scene();
    full.root.tokens_count = u64::MAX;
    assert_eq!(e(full.mint(1, 0, 500)), Failure::Custom(HypeError::ArithmeticOverflow));
    // with the derivations handed in, a wrong one is refused
    let addresses = derive_trade_addresses(&program(), &accounts);
    assert_eq!(
        e(mint_with(&program(), &accounts, &data, &clock, &addresses, None)),
        Failure::Custom(HypeError::InvalidAccountKey)
    );
    let entry = derive_token_entry(&program(), &accounts, &data, &addresses);
    assert_eq!(entry, Some(token_record_address(0, &token_address())));
    assert!(mint_with(&program(), &accounts, &data, &clock, &addresses, entry).is_ok());
    assert_eq!(derive_token_entry(&program(), &accounts, &data[..31], &addresses), None);
}

#[test]
fn a_burn_returns_what_the_mint_cost() {
    let s = scene();
    let (minted, _) = s.mint(100_000, 0, 500).unwrap();
    let listed = s.after(&minted);
    let mut accounts = listed.accounts();
    accounts[CLIENT_HYPE].owner = Address::new(TOKEN_2022_PROGRAM_ID);
    let (burned, effects) =
        burn(&program(), &accounts, &listed.burn_data(100_000, 0), &Clock { slot: 700, time: 900 }).unwrap();
    assert_eq!(burned.base_amount, minted.base_amount);
    assert_eq!(burned.base_amount, 111_111);
    assert_eq!(burned.total_fee, 11_111);
    assert_eq!(burned.fees, FeeSplit { holder: 3_333, operator: 7_778, referral: 0 });
    assert!(!burned.client_created && !burned.token_created);
    assert_eq!(burned.root.supply, 0);
    assert_eq!(burned.root.tvl, 0);
    assert_eq!(burned.root.fees, 7_780 + 7_778);
    assert_eq!(burned.root.holder_fees, 6_666);
    assert_eq!(burned.root.counter, 3);
    assert_eq!(burned.root.all_time_tokens_volume, 200_000);
    assert_eq!(burned.root.all_time_base_crncy_volume, 222_222);
    assert_eq!(burned.token.supply, 0);
    assert_eq!(burned.token.all_time_trades_count, 2);
    assert_eq!(burned.client.all_time_trades_count, 2);
    assert_eq!(burned.client.all_time_base_crncy_volume, 222_222);
    let (hype_auth, bump) = authority();
    assert_eq!(
        intents(&effects),
        vec![
            Action::Transfer {
                token_program: Address::new(TOKEN_PROGRAM_ID),
                source: a(0xB1),
                mint: a(0xB0),
                destination: accounts[CLIENT_TOKENS].key,
                authority: hype_auth,
                amount: 100_000,
                decimals: 0,
                checked: false,
                signer: Signer::Program { bump },
            },
            Action::Transfer {
                token_program: Address::new(TOKEN_2022_PROGRAM_ID),
                source: accounts[CLIENT_HYPE].key,
                mint: hype_mint(),
                destination: a(0xC0),
                authority: a(W),
                amount: 100_000,
                decimals: 1,
                checked: true,
                signer: Signer::Wallet,
            },
            Action::Burn {
                account: a(0xC0),
                mint: hype_mint(),
                authority: hype_auth,
                amount: 100_000,
                signer: Signer::Program { bump },
            },
        ]
    );
    assert_eq!(
        events(&effects),
        vec![Event::Burn(TradeRecord {
            client_id: 0,
            order_id: 3,
            token_id: 0,
            network_id: 0,
            mint: hype_mint(),
            creator: a(W),
            wallet: a(W),
            address: token_address(),
            creation_time: 500,
            supply: 0,
            all_time_trades_count: 2,
            all_time_base_crncy_volume: 222_222,
            all_time_tokens_volume: 200_000,
            tokens_amount: 100_000,
            base_crncy_amount: 111_111,
            time: 900,
            slot: 700,
        })]
    );
    assert_eq!(places(&effects), vec![effects.actions.len() - 1]);
}

#[test]
fn a_burn_in_the_referral_window_pays_the_referrer_from_the_reserve() {
    let mut s = scene();
    s.referrer = Some(a(0x0F));
    let (minted, _) = s.mint(150_000, 0, 500).unwrap();
    let listed = s.after(&minted);
    let mut accounts = listed.accounts();
    accounts[CLIENT_TOKENS].owner = system();
    let (burned, effects) =
        burn(&program(), &accounts, &listed.burn_data(30_000, 40_107), &Clock { slot: 700, time: 900 }).unwrap();
    assert_eq!(burned.base_amount, 40_107);
    assert_eq!(burned.total_fee, 4_010);
    assert_eq!(burned.fees, FeeSplit { holder: 1_203, operator: 1_203, referral: 1_203 });
    assert_eq!(burned.client.ref_paid, minted.client.ref_paid + 1_203);
    assert_eq!(burned.token.supply, 120_000);
    assert_eq!(burned.root.supply, 120_000);
    let (hype_auth, bump) = authority();
    let pay = |destination: Address, amount: u64| Action::Transfer {
        token_program: Address::new(TOKEN_PROGRAM_ID),
        source: a(0xB1),
        mint: a(0xB0),
        destination,
        authority: hype_auth,
        amount,
        decimals: 0,
        checked: false,
        signer: Signer::Program { bump },
    };
    assert_eq!(
        intents(&effects)[..4],
        [
            Action::CreateAssociatedAccount {
                funder: a(W),
                wallet: a(W),
                mint: a(0xB0),
                token_program: Address::new(TOKEN_PROGRAM_ID),
            },
            Action::CreateAssociatedAccount {
                funder: a(W),
                wallet: a(0x0F),
                mint: a(0xB0),
                token_program: Address::new(TOKEN_PROGRAM_ID),
            },
            pay(accounts[CLIENT_TOKENS].key, 40_107 - 4_010),
            pay(accounts[REFERRER_TOKENS].key, 1_203),
        ]
    );
    assert_eq!(intents(&effects).len(), 6);
}

#[test]
fn a_burn_is_refused() {
    let s = scene();
    let (minted, _) = s.mint(100_000, 0, 500).unwrap();
    let listed = s.after(&minted);
    let e = |r: Result<(Trade, Effects), Failure>| err_of(r);
    assert_eq!(e(listed.burn(0, 0, 900)), Failure::Custom(HypeError::TooSmallQuantity));
    assert_eq!(e(listed.burn(100_001, 0, 900)), Failure::Custom(HypeError::TooBigQuantity));
    assert_eq!(e(listed.burn(100_000, 111_112, 900)), Failure::Custom(HypeError::MaxTradeCostExceeded));
    assert!(listed.burn(100_000, 111_111, 900).is_ok());
    let clock = Clock { slot: 700, time: 900 };
    let accounts = listed.accounts();
    let data = listed.burn_data(100_000, 0);
    assert_eq!(e(burn(&program(), &accounts, &data[..23], &clock)), Failure::Custom(HypeError::InvalidDataLength));
    let mut stolen = accounts.clone();
    stolen[TOKEN].owner = a(1);
    assert_eq!(e(burn(&program(), &stolen, &data, &clock)), Failure::Custom(HypeError::InvalidTokenAccount));
    let mut short = accounts.clone();
    short[TOKEN].data.truncate(100);
    assert_eq!(e(burn(&program(), &short, &data, &clock)), Failure::Custom(HypeError::InvalidTokenAccount));
    let mut other = s.after(&minted);
    other.token.as_mut().unwrap().mint = a(1);
    assert_eq!(e(other.burn(1, 0, 900)), Failure::Custom(HypeError::InvalidTokenAccount));
    let mut drifted = s.after(&minted);
    drifted.mint_supply = Some(100_001);
    assert_eq!(e(drifted.burn(1, 0, 900)), Failure::Custom(HypeError::InvalidTokenSupply));
    let mut drained = s.after(&minted);
    drained.root.supply = 99_999;
    assert_eq!(e(drained.burn(100_000, 0, 900)), Failure::Custom(HypeError::InvalidTotalSupply));
    let mut drained = s.after(&minted);
    drained.root.tvl = 111_110;
    assert_eq!(e(drained.burn(100_000, 0, 900)), Failure::Custom(HypeError::InvalidTVL));
    let mut full = s.after(&minted);
    full.token.as_mut().unwrap().supply = 1_000_000;
    full.mint_supply = Some(1_000_000);
    assert_eq!(e(full.burn(1, 0, 900)), Failure::Custom(HypeError::InvalidSupply));
    // a fee above the return cannot be paid
    let mut costly = s.after(&minted);
    costly.root.min_fee = 1_000_000.0f64.to_bits();
    assert_eq!(e(costly.burn(100_000, 0, 900)), Failure::Custom(HypeError::ArithmeticOverflow));
    // a burn by a wallet that has no client account yet creates one on the way
    let mut fresh = s.after(&minted);
    fresh.client = None;
    let (burned, effects) = fresh.burn(100_000, 0, 900).unwrap();
    assert!(burned.client_created);
    assert_eq!(burned.client.nickname, name32(b"nick"));
    assert_eq!(burned.root.clients_count, 2);
    assert!(matches!(intents(&effects)[0], Action::CreateAccount { .. }));
    assert!(matches!(events(&effects)[0], Event::NewClient { client_id: 1, order_id: 2, .. }));
    // the new client is logged once its account is created, the burn at the end
    assert_eq!(places(&effects), vec![1, effects.actions.len() - 1]);
    let addresses = derive_trade_addresses(&program(), &accounts);
    assert!(burn_with(&program(), &accounts, &data, &clock, &addresses).is_ok());
    let mut wrong = addresses;
    wrong.authority = None;
    assert_eq!(
        e(burn_with(&program(), &accounts, &data, &clock, &wrong)),
        Failure::Custom(HypeError::InvalidHypeAuthority)
    );
}

#[test]
fn curves_and_supplies_are_read_from_the_stored_entries() {
    let curve = get_curve(&fresh_root());
    assert_eq!(curve.max_supply, 1_000_000);
    assert_eq!(curve.decimals_factor, 10);
    assert_eq!(curve.init_price.bits, 1.0f64.to_bits());
    assert_eq!(curve.fee_rate.bits, 0.01f64.to_bits());
    assert_eq!(curve.min_fee.bits, 0);
    assert_eq!(read_supply(&spl_mint(77)), Some(77));
    assert_eq!(read_supply(&spl_mint(77)[..44]), Some(77));
    assert_eq!(read_supply(&spl_mint(77)[..43]), None);
}

// ---------------------------------------------------------------- validations, names, sweeps

fn listed_token(status: u64) -> TokenAccount {
    TokenAccount {
        tag: TOKEN_TAG,
        version: VERSION,
        id: 0,
        mint: hype_mint(),
        program_address: a(0xC0),
        creator: a(W),
        creation_time: 500,
        time: 500,
        supply: 100,
        address: token_address(),
        network: 0,
        reserved: 0,
        slot: 600,
        all_time_trades_count: 1,
        all_time_base_crncy_volume: 100,
        all_time_tokens_volume: 100,
        status,
    }
}

fn validation_accounts(token: &TokenAccount) -> Vec<AccountView> {
    let mut root = fresh_root();
    root.networks_count = 1;
    vec![
        wallet(a(0x0E)),
        root_account(&root, &[network(a(0x0E))]),
        owned(token_record_address(0, &token.address).0, program(), token.pack()),
    ]
}

#[test]
fn verify_twice_fails_and_unverify_flips() {
    let h = host(900, 901);
    let token = listed_token(NOT_CHECKED);
    let verified = change_token_status(&program(), &validation_accounts(&token), &[7, 1], &h).unwrap();
    assert_eq!(verified.status, VERIFIED);
    assert_eq!((verified.time, verified.slot), (900, 901));
    assert_eq!(TokenAccount { status: NOT_CHECKED, time: 500, slot: 600, ..verified }, token);
    assert_eq!(
        change_token_status(&program(), &validation_accounts(&verified), &[7, 1], &h),
        custom(HypeError::TokenAlreadyVerified)
    );
    let rejected = change_token_status(&program(), &validation_accounts(&verified), &[7, 0], &h).unwrap();
    assert_eq!(rejected.status, NOT_VERIFIED);
    let again = change_token_status(&program(), &validation_accounts(&rejected), &[7, 1], &h).unwrap();
    assert_eq!(again.status, VERIFIED);
    assert_eq!(decide_status(NOT_CHECKED, true), Ok(VERIFIED));
    assert_eq!(decide_status(NOT_VERIFIED, true), Ok(VERIFIED));
    assert_eq!(decide_status(VERIFIED, true), Err(HypeError::TokenAlreadyVerified));
    assert_eq!(decide_status(VERIFIED, false), Ok(NOT_VERIFIED));
    assert_eq!(decide_status(NOT_CHECKED, false), Ok(NOT_VERIFIED));
    assert_eq!(decide_status(NOT_VERIFIED, false), Ok(NOT_VERIFIED));
}

#[test]
fn a_validation_is_refused() {
    let h = host(900, 901);
    let ok = validation_accounts(&listed_token(NOT_CHECKED));
    let check = |accounts: &[AccountView], data: &[u8]| change_token_status(&program(), accounts, data, &h);
    assert_eq!(check(&ok[..2], &[7, 1]), Err(Failure::NotEnoughAccountKeys));
    let mut accounts = ok.clone();
    accounts[1].owner = a(1);
    assert_eq!(check(&accounts, &[7, 1]), Err(Failure::IncorrectProgramId));
    let mut accounts = ok.clone();
    accounts[1].data[0] = 0;
    assert_eq!(check(&accounts, &[7, 1]), custom(HypeError::InvalidAccountTag));
    let mut accounts = ok.clone();
    accounts[2].data.truncate(215);
    assert_eq!(check(&accounts, &[7, 1]), custom(HypeError::InvalidTokenAccount));
    let mut accounts = ok.clone();
    accounts[2].owner = a(1);
    assert_eq!(check(&accounts, &[7, 1]), custom(HypeError::InvalidTokenAccount));
    let mut accounts = ok.clone();
    accounts[2].key = a(1);
    assert_eq!(check(&accounts, &[7, 1]), custom(HypeError::InvalidAccountKey));
    let mut accounts = ok.clone();
    accounts[0].key = a(1);
    assert_eq!(check(&accounts, &[7, 1]), custom(HypeError::InvalidValidator));
    // the validator's address without its signature is not the validator
    let mut accounts = ok.clone();
    accounts[0].is_signer = false;
    assert_eq!(check(&accounts, &[7, 1]), custom(HypeError::InvalidValidator));
    assert_eq!(check(&ok, &[7]), custom(HypeError::InvalidDataLength));
    let mut elsewhere = listed_token(NOT_CHECKED);
    elsewhere.network = 1;
    let mut accounts = validation_accounts(&elsewhere);
    accounts[2].key = token_record_address(1, &elsewhere.address).0;
    assert_eq!(check(&accounts, &[7, 1]), custom(HypeError::InvalidNetworkId));
    assert_eq!(
        change_token_status_with(&program(), &ok, &[7, 1], &h, None, None),
        custom(HypeError::InvalidHypeAuthority)
    );
    assert_eq!(
        change_token_status_with(&program(), &ok, &[7, 1], &h, Some(authority()), None),
        custom(HypeError::InvalidAccountKey)
    );
}

#[test]
fn a_client_changes_its_nickname() {
    let client = expected_client(500, system(), 500);
    let accounts = vec![wallet(a(W)), owned(client_address().0, program(), client.pack())];
    let mut data = vec![6u8, 0, 0, 0, 0, 0, 0, 0];
    data.extend_from_slice(&name32(b"new name"));
    let changed = change_client_data(&program(), &accounts, &data, &host(900, 901)).unwrap();
    assert_eq!(changed, ClientAccount { nickname: name32(b"new name"), time: 900, slot: 901, ..client });
    assert_eq!(change_client_data(&program(), &accounts[..1], &data, &host(900, 901)), Err(Failure::NotEnoughAccountKeys));
    assert_eq!(
        change_client_data(&program(), &accounts, &data[..39], &host(900, 901)),
        custom(HypeError::InvalidDataLength)
    );
    let other = vec![wallet(a(1)), accounts[1].clone()];
    assert_eq!(change_client_data(&program(), &other, &data, &host(900, 901)), custom(HypeError::InvalidClientAccount));
    let mut unsigned = accounts.clone();
    unsigned[0].is_signer = false;
    assert_eq!(change_client_data(&program(), &unsigned, &data, &host(900, 901)), custom(HypeError::InvalidClientAccount));
    let mut stolen = accounts.clone();
    stolen[1].owner = a(1);
    assert_eq!(change_client_data(&program(), &stolen, &data, &host(900, 901)), custom(HypeError::InvalidClientAccount));
    let mut tagged = accounts.clone();
    tagged[1].data[0] = ROOT_TAG as u8;
    assert_eq!(change_client_data(&program(), &tagged, &data, &host(900, 901)), custom(HypeError::InvalidClientAccount));
    let mut short = accounts.clone();
    short[1].data.truncate(175);
    assert_eq!(change_client_data(&program(), &short, &data, &host(900, 901)), custom(HypeError::InvalidClientAccount));
    assert_eq!(load_client(&program(), &accounts[1], &a(W)), Ok(client));
}

/// The token account of `wallet` for the base currency of the tests.
fn fee_account(wallet: Address) -> Address {
    get_associated_token_address(&wallet, &a(0xB0), &Address::new(TOKEN_PROGRAM_ID)).unwrap()
}

fn sweep_accounts(root: &RootAccount, destination_exists: bool) -> Vec<AccountView> {
    let mut destination = plain(fee_account(a(0xF0)));
    if destination_exists {
        destination.owner = Address::new(TOKEN_PROGRAM_ID);
    }
    vec![
        wallet(a(0x0B)),
        root_account(root, &[]),
        base_mint(1),
        owned(a(0xB1), Address::new(TOKEN_PROGRAM_ID), vec![0; 165]),
        plain(a(0xF0)),
        destination,
        plain(Address::new(TOKEN_PROGRAM_ID)),
        plain(authority().0),
    ]
}

fn sweep_transfer(amount: u64) -> Action {
    sweep_transfer_to(fee_account(a(0xF0)), amount)
}

fn sweep_transfer_to(destination: Address, amount: u64) -> Action {
    let (hype_auth, bump) = authority();
    Action::Transfer {
        token_program: Address::new(TOKEN_PROGRAM_ID),
        source: a(0xB1),
        mint: a(0xB0),
        destination,
        authority: hype_auth,
        amount,
        decimals: 0,
        checked: false,
        signer: Signer::Program { bump },
    }
}

#[test]
fn the_operator_pool_is_swept_whole() {
    let mut root = fresh_root();
    root.fees = 1_234;
    root.holder_fees = 99;
    let (swept, effects) = withdraw_operator_funds(&program(), &sweep_accounts(&root, true)).unwrap();
    assert_eq!(swept, RootAccount { fees: 0, ..root });
    assert_eq!(swept.holder_fees, 99);
    assert_eq!(effects.actions, vec![sweep_transfer(1_234)]);
    let (_, effects) = withdraw_operator_funds(&program(), &sweep_accounts(&root, false)).unwrap();
    assert_eq!(
        effects.actions,
        vec![
            Action::CreateAssociatedAccount {
                funder: a(0x0B),
                wallet: a(0xF0),
                mint: a(0xB0),
                token_program: Address::new(TOKEN_PROGRAM_ID),
            },
            sweep_transfer(1_234),
        ]
    );
    // an empty pool transfers nothing
    root.fees = 0;
    let (swept, effects) = withdraw_operator_funds(&program(), &sweep_accounts(&root, true)).unwrap();
    assert_eq!(swept, root);
    assert!(effects.actions.is_empty());
}

#[test]
fn the_operator_sweep_is_refused() {
    let mut root = fresh_root();
    root.fees = 1_234;
    let ok = sweep_accounts(&root, true);
    assert_eq!(err_of(withdraw_operator_funds(&program(), &ok[..7])), Failure::NotEnoughAccountKeys);
    let mut accounts = ok.clone();
    accounts[0].is_signer = false;
    assert_eq!(err_of(withdraw_operator_funds(&program(), &accounts)), Failure::Custom(HypeError::AdminSignatureRequired));
    let mut accounts = ok.clone();
    accounts[1].data[0] = 0;
    assert_eq!(err_of(withdraw_operator_funds(&program(), &accounts)), Failure::Custom(HypeError::InvalidAccountTag));
    let mut accounts = ok.clone();
    accounts[0].key = a(1);
    assert_eq!(err_of(withdraw_operator_funds(&program(), &accounts)), Failure::Custom(HypeError::InvalidAdmin));
    let mut accounts = ok.clone();
    accounts[4].key = a(1);
    assert_eq!(err_of(withdraw_operator_funds(&program(), &accounts)), Failure::Custom(HypeError::InvalidFeeWallet));
    let mut accounts = ok.clone();
    accounts[7].key = a(1);
    assert_eq!(err_of(withdraw_operator_funds(&program(), &accounts)), Failure::Custom(HypeError::InvalidHypeAuthority));
    assert_eq!(
        err_of(withdraw_operator_funds_with(&program(), &ok, None, Some(fee_account(a(0xF0))))),
        Failure::Custom(HypeError::InvalidHypeAuthority)
    );
    assert_eq!(
        err_of(withdraw_operator_funds_with(&program(), &ok, Some(authority()), None)),
        Failure::Custom(HypeError::InvalidAssociatedTokenAddress)
    );
    assert!(withdraw_operator_funds_with(&program(), &ok, Some(authority()), Some(fee_account(a(0xF0)))).is_ok());
    // the mint and the reserve must be the ledger's own, the receiving account the fee wallet's
    let mut accounts = ok.clone();
    accounts[2].key = a(1);
    assert_eq!(err_of(withdraw_operator_funds(&program(), &accounts)), Failure::Custom(HypeError::InvalidBaseCrncyMint));
    let mut accounts = ok.clone();
    accounts[3].key = a(0xC0);
    assert_eq!(err_of(withdraw_operator_funds(&program(), &accounts)), Failure::Custom(HypeError::InvalidBaseCrncyProgramAddress));
    let mut accounts = ok.clone();
    accounts[5].key = a(0xF1);
    assert_eq!(err_of(withdraw_operator_funds(&program(), &accounts)), Failure::Custom(HypeError::InvalidAssociatedTokenAddress));
    let mut accounts = ok.clone();
    accounts[5].key = fee_account(a(0x0B));
    assert_eq!(err_of(withdraw_operator_funds(&program(), &accounts)), Failure::Custom(HypeError::InvalidAssociatedTokenAddress));
    // a root ledger that the program does not own, whatever it holds
    let mut accounts = ok.clone();
    accounts[1].owner = a(1);
    assert_eq!(err_of(withdraw_operator_funds(&program(), &accounts)), Failure::IncorrectProgramId);
    let mut accounts = ok.clone();
    accounts[1].owner = system();
    assert_eq!(err_of(withdraw_operator_funds(&program(), &accounts)), Failure::IncorrectProgramId);
}

fn holder_sweep_accounts(root: &RootAccount) -> Vec<AccountView> {
    let mut destination = plain(fee_account(a(0x77)));
    destination.owner = Address::new(TOKEN_PROGRAM_ID);
    vec![
        wallet(admin()),
        registry(&[operator(VERSION, 2)], 0),
        root_account(root, &[]),
        base_mint(1),
        owned(a(0xB1), Address::new(TOKEN_PROGRAM_ID), vec![0; 165]),
        plain(a(0x77)),
        destination,
        plain(Address::new(TOKEN_PROGRAM_ID)),
        plain(authority().0),
    ]
}

#[test]
fn the_holder_pool_is_swept_whole() {
    let mut root = fresh_root();
    root.fees = 1_234;
    root.holder_fees = 99;
    let h = host(900, 901);
    let ok = holder_sweep_accounts(&root);
    let (swept, effects) = withdraw_holder_funds(&program(), &ok, &h).unwrap();
    assert_eq!(swept, RootAccount { holder_fees: 0, ..root });
    assert_eq!(swept.fees, 1_234);
    assert_eq!(effects.actions, vec![sweep_transfer_to(fee_account(a(0x77)), 99)]);
    assert_eq!(err_of(withdraw_holder_funds(&program(), &ok[..8], &h)), Failure::NotEnoughAccountKeys);
    let mut accounts = ok.clone();
    accounts[1].is_writable = true;
    assert_eq!(err_of(withdraw_holder_funds(&program(), &accounts, &h)), Failure::Custom(HypeError::InvalidHolderAccount));
    let mut accounts = ok.clone();
    accounts[2].data[0] = 0;
    assert_eq!(err_of(withdraw_holder_funds(&program(), &accounts, &h)), Failure::Custom(HypeError::InvalidAccountTag));
    // a root ledger that the program does not own, whatever it holds
    let mut accounts = ok.clone();
    accounts[2].owner = a(1);
    assert_eq!(err_of(withdraw_holder_funds(&program(), &accounts, &h)), Failure::IncorrectProgramId);
    let mut accounts = ok.clone();
    accounts[0].is_signer = false;
    assert_eq!(err_of(withdraw_holder_funds(&program(), &accounts, &h)), Failure::Custom(HypeError::InvalidHolderAdmin));
    let mut accounts = ok.clone();
    accounts[5].key = a(0xF0);
    assert_eq!(err_of(withdraw_holder_funds(&program(), &accounts, &h)), Failure::Custom(HypeError::InvalidFeeWallet));
    let mut accounts = ok.clone();
    accounts[8].key = a(1);
    assert_eq!(err_of(withdraw_holder_funds(&program(), &accounts, &h)), Failure::Custom(HypeError::InvalidHypeAuthority));
    // the mint and the reserve must be the ledger's own, the receiving account the wallet's
    let mut accounts = ok.clone();
    accounts[3].key = a(1);
    assert_eq!(err_of(withdraw_holder_funds(&program(), &accounts, &h)), Failure::Custom(HypeError::InvalidBaseCrncyMint));
    let mut accounts = ok.clone();
    accounts[4].key = a(0xC0);
    assert_eq!(err_of(withdraw_holder_funds(&program(), &accounts, &h)), Failure::Custom(HypeError::InvalidBaseCrncyProgramAddress));
    let mut accounts = ok.clone();
    accounts[6].key = fee_account(a(0xF0));
    assert_eq!(err_of(withdraw_holder_funds(&program(), &accounts, &h)), Failure::Custom(HypeError::InvalidAssociatedTokenAddress));
    assert_eq!(
        err_of(withdraw_holder_funds_with(&program(), &ok, &h, Some(authority()), None)),
        Failure::Custom(HypeError::InvalidAssociatedTokenAddress)
    );
    assert!(withdraw_holder_funds_with(&program(), &ok, &h, Some(authority()), Some(fee_account(a(0x77)))).is_ok());
}

// ---------------------------------------------------------------- dispatch

#[test]
fn the_first_byte_selects_the_operation() {
    let h = host(500, 600);
    assert_eq!(err_of(process_instruction(&program(), &[], &[], &h)), Failure::Custom(HypeError::InvalidInstruction));
    for opcode in 10..=255u8 {
        let (outcome, effects) = process_instruction(&program(), &[], &[opcode, 1, 2], &h).unwrap();
        assert_eq!(outcome, Outcome::Ignored);
        assert!(effects.actions.is_empty());
    }
    let (_, bump) = holder_address();
    let (outcome, effects) =
        process_instruction(&program(), &holder_init_accounts(), &holder_init_data(bump), &h).unwrap();
    let (holder, direct) =
        initialize_holder(&program(), &holder_init_accounts(), &holder_init_data(bump), &h).unwrap();
    assert_eq!(outcome, Outcome::HolderInitialized(holder));
    assert_eq!(effects.actions, direct.actions);

    let accounts = operator_accounts(registry(&[], 0));
    let (outcome, _) = process_instruction(&program(), &accounts, &operator_data(VERSION, 2), &h).unwrap();
    assert_eq!(outcome, Outcome::OperatorAdded(add_operator(&program(), &accounts, &operator_data(VERSION, 2), &h).unwrap().0));

    let accounts = root_init_accounts(TOKEN_PROGRAM_ID);
    let (outcome, _) = process_instruction(&program(), &accounts, &root_init_data(VERSION), &host(5, 6)).unwrap();
    assert_eq!(outcome, Outcome::RootInitialized(fresh_root()));

    let accounts = network_accounts(&fresh_root(), &[]);
    let (outcome, effects) =
        process_instruction(&program(), &accounts, &network_data(&network(a(0x0E))), &h).unwrap();
    assert!(matches!(outcome, Outcome::NetworkAdded(added) if added.id == 0));
    assert_eq!(events(&effects).len(), 1);

    let s = scene();
    let (outcome, effects) = process_instruction(&program(), &s.accounts(), &s.mint_data(100_000, 0), &h).unwrap();
    let (minted, direct) = s.mint(100_000, 0, 500).unwrap();
    assert_eq!(outcome, Outcome::Minted(minted));
    assert_eq!(effects.actions, direct.actions);
    assert_eq!(events(&effects), events(&direct));

    let listed = s.after(&minted);
    let (outcome, _) = process_instruction(&program(), &listed.accounts(), &listed.burn_data(100_000, 0), &h).unwrap();
    assert!(matches!(outcome, Outcome::Burned(t) if t.base_amount == 111_111 && t.token.supply == 0));

    let client = expected_client(500, system(), 500);
    let accounts = vec![wallet(a(W)), owned(client_address().0, program(), client.pack())];
    let mut data = vec![6u8, 0, 0, 0, 0, 0, 0, 0];
    data.extend_from_slice(&name32(b"new name"));
    let (outcome, _) = process_instruction(&program(), &accounts, &data, &h).unwrap();
    assert!(matches!(outcome, Outcome::ClientChanged(c) if c.nickname == name32(b"new name")));

    let (outcome, _) =
        process_instruction(&program(), &validation_accounts(&listed_token(NOT_CHECKED)), &[7, 1], &h).unwrap();
    assert!(matches!(outcome, Outcome::TokenStatusChanged(t) if t.status == VERIFIED));

    let mut root = fresh_root();
    root.fees = 5;
    root.holder_fees = 6;
    let (outcome, effects) = process_instruction(&program(), &sweep_accounts(&root, true), &[8], &h).unwrap();
    assert_eq!(outcome, Outcome::OperatorFundsWithdrawn(RootAccount { fees: 0, ..root }));
    assert_eq!(intents(&effects), vec![sweep_transfer(5)]);
    let (outcome, effects) = process_instruction(&program(), &holder_sweep_accounts(&root), &[9], &h).unwrap();
    assert_eq!(outcome, Outcome::HolderFundsWithdrawn(RootAccount { holder_fees: 0, ..root }));
    assert_eq!(intents(&effects), vec![sweep_transfer_to(fee_account(a(0x77)), 6)]);
    // a failure of the operation is the failure of the instruction
    assert_eq!(err_of(process_instruction(&program(), &[], &[4], &h)), Failure::NotEnoughAccountKeys);
    assert_eq!(err_of(process_instruction(&program(), &[], &[0], &h)), Failure::Custom(HypeError::InvalidAccountsNumber));
}
