use hypemeter::address::Address;
use hypemeter::constants::{
    CLIENT_ACCOUNT_SIZE, HOLDER_ACCOUNT_SIZE, NETWORK_RECORD_SIZE, OPERATOR_RECORD_SIZE,
    ROOT_ACCOUNT_SIZE, TOKEN_ACCOUNT_SIZE,
};
use hypemeter::log::{
    log_burn, log_mint, log_new_client, log_new_network, log_new_token, Event, TradeRecord,
};
use hypemeter::state::client::ClientAccount;
use hypemeter::state::holder::{HolderAccount, OperatorRecord};
use hypemeter::state::root::{NetworkRecord, RootAccount};
use hypemeter::state::token::TokenAccount;

fn a(b: u8) -> Address {
    Address::new([b; 32])
}

fn token() -> TokenAccount {
    TokenAccount {
        tag: 0x0403_0201,
        version: 0x0807_0605,
        id: 0x1111_1111_2222_2222,
        mint: a(0xA1),
        program_address: a(0xA2),
        creator: a(0xA3),
        creation_time: 0x0C0B_0A09,
        time: 0x100F_0E0D,
        supply: 0x3333_3333_4444_4444,
        address: [0xB1; 24],
        network: 0x1413_1211,
        reserved: 0x1817_1615,
        slot: 0x5555_5555_6666_6666,
        all_time_trades_count: 0x7777_7777_8888_8888,
        all_time_base_crncy_volume: 0x0102_0304_0506_0708_090A_0B0C_0D0E_0F10,
        all_time_tokens_volume: 0x1112_1314_1516_1718_191A_1B1C_1D1E_1F20,
        status: 2,
    }
}

fn client() -> ClientAccount {
    ClientAccount {
        tag: 3,
        version: 0x0807_0605,
        id: 77,
        wallet: a(0xC1),
        all_time_base_crncy_volume: 1_000,
        all_time_tokens_volume: 2_000,
        slot: 3_000,
        time: 4_000,
        tokens_created: 5,
        ref_stop: 6_000,
        all_time_trades_count: 7,
        nickname: [b'n'; 32],
        ref_address: a(0xC2),
        ref_paid: 8_000,
        ref_discount: 0.1f64.to_bits(),
        ref_ratio: 0.5f64.to_bits(),
    }
}

fn root() -> RootAccount {
    RootAccount {
        tag: 2,
        version: 9,
        admin: a(1),
        fee_wallet: a(2),
        base_crncy_mint: a(3),
        base_crncy_program_address: a(4),
        clients_count: 10,
        tokens_count: 11,
        fees: 12,
        networks_count: 13,
        base_crncy_decs_factor: 1_000_000,
        slot: 14,
        time: 15,
        decimals: 6,
        supply: 16,
        tvl: 17,
        counter: 18,
        all_time_base_crncy_volume: 19,
        all_time_tokens_volume: 20,
        holder_fees: 21,
        init_price: 1.0f64.to_bits(),
        max_supply: 1_000_000,
        fee_ratio: 0.7f64.to_bits(),
        fee_rate: 0.01f64.to_bits(),
        creation_fee: 0.25f64.to_bits(),
        max_networks_count: 22,
        creation_time: 23,
        min_fee: 0.001f64.to_bits(),
        operator_name: [b'o'; 32],
        ref_duration: 24,
        mask: 25,
        ref_discount: 0.1f64.to_bits(),
        ref_ratio: 0.5f64.to_bits(),
        url_prefix: [b'u'; 32],
    }
}

#[test]
fn sizes_of_the_stored_forms() {
    assert_eq!(token().pack().len(), TOKEN_ACCOUNT_SIZE);
    assert_eq!(client().pack().len(), CLIENT_ACCOUNT_SIZE);
    assert_eq!(root().pack().len(), ROOT_ACCOUNT_SIZE);
    assert_eq!(TOKEN_ACCOUNT_SIZE, 216);
    assert_eq!(CLIENT_ACCOUNT_SIZE, 176);
    assert_eq!(ROOT_ACCOUNT_SIZE, 392);
    assert_eq!(HOLDER_ACCOUNT_SIZE, 56);
    assert_eq!(OPERATOR_RECORD_SIZE, 72);
    assert_eq!(NETWORK_RECORD_SIZE, 136);
}

#[test]
fn token_record_layout() {
    let bytes = token().pack();
    assert_eq!(&bytes[0..4], &[1, 2, 3, 4]);
    assert_eq!(&bytes[4..8], &[5, 6, 7, 8]);
    assert_eq!(&bytes[8..16], &0x1111_1111_2222_2222u64.to_le_bytes());
    assert_eq!(&bytes[16..48], &[0xA1; 32]);
    assert_eq!(&bytes[48..80], &[0xA2; 32]);
    assert_eq!(&bytes[80..112], &[0xA3; 32]);
    assert_eq!(&bytes[112..116], &[9, 10, 11, 12]);
    assert_eq!(&bytes[116..120], &[13, 14, 15, 16]);
    assert_eq!(&bytes[120..128], &0x3333_3333_4444_4444u64.to_le_bytes());
    assert_eq!(&bytes[128..152], &[0xB1; 24]);
    assert_eq!(&bytes[152..156], &[0x11, 0x12, 0x13, 0x14]);
    assert_eq!(&bytes[156..160], &[0x15, 0x16, 0x17, 0x18]);
    assert_eq!(&bytes[160..168], &0x5555_5555_6666_6666u64.to_le_bytes());
    assert_eq!(&bytes[168..176], &0x7777_7777_8888_8888u64.to_le_bytes());
    assert_eq!(bytes[176], 0x10);
    assert_eq!(bytes[191], 0x01);
    assert_eq!(bytes[192], 0x20);
    assert_eq!(bytes[207], 0x11);
    assert_eq!(&bytes[208..216], &[2, 0, 0, 0, 0, 0, 0, 0]);
}

#[test]
fn client_account_layout() {
    let bytes = client().pack();
    assert_eq!(&bytes[0..4], &[3, 0, 0, 0]);
    assert_eq!(&bytes[8..16], &77u64.to_le_bytes());
    assert_eq!(&bytes[16..48], &[0xC1; 32]);
    assert_eq!(&bytes[48..56], &1_000u64.to_le_bytes());
    assert_eq!(&bytes[56..64], &2_000u64.to_le_bytes());
    assert_eq!(&bytes[64..72], &3_000u64.to_le_bytes());
    assert_eq!(&bytes[72..76], &4_000u32.to_le_bytes());
    assert_eq!(&bytes[76..80], &5u32.to_le_bytes());
    assert_eq!(&bytes[80..84], &6_000u32.to_le_bytes());
    assert_eq!(&bytes[84..88], &7u32.to_le_bytes());
    assert_eq!(&bytes[88..120], &[b'n'; 32]);
    assert_eq!(&bytes[120..152], &[0xC2; 32]);
    assert_eq!(&bytes[152..160], &8_000u64.to_le_bytes());
    assert_eq!(&bytes[160..168], &0.1f64.to_le_bytes());
    assert_eq!(&bytes[168..176], &0.5f64.to_le_bytes());
}

#[test]
fn root_ledger_layout() {
    let bytes = root().pack();
    assert_eq!(&bytes[0..4], &2u32.to_le_bytes());
    assert_eq!(&bytes[4..8], &9u32.to_le_bytes());
    assert_eq!(&bytes[8..40], &[1; 32]);
    assert_eq!(&bytes[40..72], &[2; 32]);
    assert_eq!(&bytes[72..104], &[3; 32]);
    assert_eq!(&bytes[104..136], &[4; 32]);
    assert_eq!(&bytes[136..144], &10u64.to_le_bytes());
    assert_eq!(&bytes[144..152], &11u64.to_le_bytes());
    assert_eq!(&bytes[152..160], &12u64.to_le_bytes());
    assert_eq!(&bytes[160..164], &13u32.to_le_bytes());
    assert_eq!(&bytes[164..168], &1_000_000u32.to_le_bytes());
    assert_eq!(&bytes[168..176], &14u64.to_le_bytes());
    assert_eq!(&bytes[176..180], &15u32.to_le_bytes());
    assert_eq!(&bytes[180..184], &6u32.to_le_bytes());
    assert_eq!(&bytes[184..192], &16u64.to_le_bytes());
    assert_eq!(&bytes[192..200], &17u64.to_le_bytes());
    assert_eq!(&bytes[200..208], &18u64.to_le_bytes());
    assert_eq!(&bytes[208..224], &19u128.to_le_bytes());
    assert_eq!(&bytes[224..240], &20u128.to_le_bytes());
    assert_eq!(&bytes[240..248], &21u64.to_le_bytes());
    assert_eq!(&bytes[248..256], &1.0f64.to_le_bytes());
    assert_eq!(&bytes[256..264], &1_000_000u64.to_le_bytes());
    assert_eq!(&bytes[264..272], &0.7f64.to_le_bytes());
    assert_eq!(&bytes[272..280], &0.01f64.to_le_bytes());
    assert_eq!(&bytes[280..288], &0.25f64.to_le_bytes());
    assert_eq!(&bytes[288..292], &22u32.to_le_bytes());
    assert_eq!(&bytes[292..296], &23u32.to_le_bytes());
    assert_eq!(&bytes[296..304], &0.001f64.to_le_bytes());
    assert_eq!(&bytes[304..336], &[b'o'; 32]);
    assert_eq!(&bytes[336..340], &24u32.to_le_bytes());
    assert_eq!(&bytes[340..344], &25u32.to_le_bytes());
    assert_eq!(&bytes[344..352], &0.1f64.to_le_bytes());
    assert_eq!(&bytes[352..360], &0.5f64.to_le_bytes());
    assert_eq!(&bytes[360..392], &[b'u'; 32]);
}

#[test]
fn registry_layouts() {
    let holder = HolderAccount {
        tag: 1,
        version: 0xFFFF_FFFF,
        wallet: a(7),
        slot: 0x0102,
        time: 0x0304,
        operators_count: 5,
    };
    let bytes = holder.pack();
    assert_eq!(bytes.len(), HOLDER_ACCOUNT_SIZE);
    assert_eq!(&bytes[0..4], &[1, 0, 0, 0]);
    assert_eq!(&bytes[4..8], &[0xFF; 4]);
    assert_eq!(&bytes[8..40], &[7; 32]);
    assert_eq!(&bytes[40..48], &0x0102u64.to_le_bytes());
    assert_eq!(&bytes[48..52], &0x0304u32.to_le_bytes());
    assert_eq!(&bytes[52..56], &5u32.to_le_bytes());
    assert_eq!(HolderAccount::unpack(&bytes), Some(holder));

    let operator = OperatorRecord {
        operator_address: a(8),
        version: 3,
        max_networks_count: 4,
        operator_name: [b'x'; 32],
    };
    let bytes = operator.pack();
    assert_eq!(bytes.len(), OPERATOR_RECORD_SIZE);
    assert_eq!(&bytes[0..32], &[8; 32]);
    assert_eq!(&bytes[32..36], &3u32.to_le_bytes());
    assert_eq!(&bytes[36..40], &4u32.to_le_bytes());
    assert_eq!(&bytes[40..72], &[b'x'; 32]);
    assert_eq!(OperatorRecord::unpack(&bytes), Some(operator));

    let network = NetworkRecord {
        max_length: 20,
        validator: a(9),
        descriptor: [b'd'; 32],
        mask: [b'm'; 64],
    };
    let bytes = network.pack();
    assert_eq!(bytes.len(), NETWORK_RECORD_SIZE);
    assert_eq!(&bytes[0..8], &20u64.to_le_bytes());
    assert_eq!(&bytes[8..40], &[9; 32]);
    assert_eq!(&bytes[40..72], &[b'd'; 32]);
    assert_eq!(&bytes[72..136], &[b'm'; 64]);
    assert_eq!(NetworkRecord::unpack(&bytes), Some(network));
}

#[test]
fn what_is_packed_is_unpacked() {
    assert_eq!(TokenAccount::unpack(&token().pack()), Some(token()));
    assert_eq!(ClientAccount::unpack(&client().pack()), Some(client()));
    assert_eq!(RootAccount::unpack(&root().pack()), Some(root()));
    // bytes after the entry are not read
    let mut long = root().pack();
    long.extend_from_slice(&[0xEE; 300]);
    assert_eq!(RootAccount::unpack(&long), Some(root()));
}

#[test]
fn what_is_stored_is_read_back() {
    let mut data = vec![0xEEu8; 600];
    assert!(root().store_at(&mut data, 0));
    assert_eq!(RootAccount::unpack(&data), Some(root()));
    assert_eq!(&data[392..], &[0xEE; 208]);
    assert!(client().store_at(&mut data, 400));
    assert_eq!(ClientAccount::unpack(&data[400..]), Some(client()));
    assert_eq!(RootAccount::unpack(&data), Some(root()));
    assert_eq!(&data[392..400], &[0xEE; 8]);
    assert_eq!(&data[576..], &[0xEE; 24]);
    // what does not fit is not stored at all
    let before = data.clone();
    assert!(!token().store_at(&mut data, 385));
    assert!(!token().store_at(&mut data, usize::MAX));
    assert_eq!(data, before);
    assert!(token().store_at(&mut data, 384));
    assert_eq!(TokenAccount::unpack(&data[384..]), Some(token()));
}

#[test]
fn short_data_holds_no_entry() {
    assert_eq!(TokenAccount::unpack(&token().pack()[..215]), None);
    assert_eq!(ClientAccount::unpack(&client().pack()[..175]), None);
    assert_eq!(RootAccount::unpack(&root().pack()[..391]), None);
    assert_eq!(HolderAccount::unpack(&[0; 55]), None);
    assert_eq!(OperatorRecord::unpack(&[0; 71]), None);
    assert_eq!(NetworkRecord::unpack(&[0; 135]), None);
    assert_eq!(RootAccount::unpack(&[]), None);
}

#[test]
fn new_client_record() {
    let fields = log_new_client(1, 2, &a(3), 4, 5);
    assert_eq!(
        fields,
        vec![
            vec![1u8],
            1u64.to_le_bytes().to_vec(),
            2u64.to_le_bytes().to_vec(),
            vec![3u8; 32],
            4u32.to_le_bytes().to_vec(),
            5u64.to_le_bytes().to_vec(),
        ]
    );
    let event = Event::NewClient { client_id: 1, order_id: 2, wallet: a(3), time: 4, slot: 5 };
    assert_eq!(event.encode(), fields);
}

#[test]
fn new_network_record() {
    let fields = log_new_network(7, &[b'd'; 32], 8, 9);
    assert_eq!(
        fields,
        vec![
            vec![2u8],
            7u32.to_le_bytes().to_vec(),
            vec![b'd'; 32],
            8u32.to_le_bytes().to_vec(),
            9u64.to_le_bytes().to_vec(),
        ]
    );
    let event = Event::NewNetwork { network_id: 7, descriptor: [b'd'; 32], time: 8, slot: 9 };
    assert_eq!(event.encode(), fields);
}

#[test]
fn new_token_record() {
    let fields = log_new_token(1, 2, 3, 4, &a(5), &a(6), &[7; 24], 8, 9);
    assert_eq!(
        fields,
        vec![
            vec![3u8],
            1u64.to_le_bytes().to_vec(),
            2u64.to_le_bytes().to_vec(),
            3u64.to_le_bytes().to_vec(),
            4u32.to_le_bytes().to_vec(),
            vec![5u8; 32],
            vec![6u8; 32],
            vec![7u8; 24],
            8u32.to_le_bytes().to_vec(),
            9u64.to_le_bytes().to_vec(),
        ]
    );
    let event = Event::NewToken {
        client_id: 1,
        order_id: 2,
        token_id: 3,
        network_id: 4,
        mint: a(5),
        creator: a(6),
        address: [7; 24],
        time: 8,
        slot: 9,
    };
    assert_eq!(event.encode(), fields);
}

fn trade() -> TradeRecord {
    TradeRecord {
        client_id: 1,
        order_id: 2,
        token_id: 3,
        network_id: 4,
        mint: a(5),
        creator: a(6),
        wallet: a(7),
        address: [8; 24],
        creation_time: 9,
        supply: 10,
        all_time_trades_count: 11,
        all_time_base_crncy_volume: 12,
        all_time_tokens_volume: 13,
        tokens_amount: 14,
        base_crncy_amount: 15,
        time: 16,
        slot: 17,
    }
}

fn trade_fields(kind: u8) -> Vec<Vec<u8>> {
    vec![
        vec![kind],
        1u64.to_le_bytes().to_vec(),
        2u64.to_le_bytes().to_vec(),
        3u64.to_le_bytes().to_vec(),
        4u32.to_le_bytes().to_vec(),
        vec![5u8; 32],
        vec![6u8; 32],
        vec![8u8; 24],
        10u64.to_le_bytes().to_vec(),
        9u32.to_le_bytes().to_vec(),
        11u64.to_le_bytes().to_vec(),
        12u64.to_le_bytes().to_vec(),
        13u64.to_le_bytes().to_vec(),
        14u64.to_le_bytes().to_vec(),
        15u64.to_le_bytes().to_vec(),
        16u32.to_le_bytes().to_vec(),
        17u64.to_le_bytes().to_vec(),
        vec![7u8; 32],
    ]
}

#[test]
fn trade_records() {
    let t = trade();
    let minted = log_mint(
        t.client_id,
        t.order_id,
        t.token_id,
        t.network_id,
        &t.mint,
        &t.creator,
        &t.wallet,
        &t.address,
        t.creation_time,
        t.supply,
        t.all_time_trades_count,
        t.all_time_base_crncy_volume,
        t.all_time_tokens_volume,
        t.tokens_amount,
        t.base_crncy_amount,
        t.time,
        t.slot,
    );
    assert_eq!(minted, trade_fields(4));
    assert_eq!(Event::Mint(t).encode(), trade_fields(4));
    let burned = log_burn(
        t.client_id,
        t.order_id,
        t.token_id,
        t.network_id,
        &t.mint,
        &t.creator,
        &t.wallet,
        &t.address,
        t.creation_time,
        t.supply,
        t.all_time_trades_count,
        t.all_time_base_crncy_volume,
        t.all_time_tokens_volume,
        t.tokens_amount,
        t.base_crncy_amount,
        t.time,
        t.slot,
    );
    assert_eq!(burned, trade_fields(5));
    assert_eq!(Event::Burn(t).encode(), trade_fields(5));
}
