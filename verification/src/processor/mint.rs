//! The mint processor: base currency is paid into the curve for new tokens.

use crate::account::{AccountView, Clock};
use crate::action::{agrees, Action, Effects, EffectsModel, Signer};
use crate::address::{
    derive_entry, derived, entry_seeds, existing_account_check, get_token_seed_bytes, token_seed,
    verify_existing, Address,
};
use crate::bytes::{bytes_24, read_24, read_u32, read_u64, u32_at, u64_at};
use crate::constants::{
    NOT_CHECKED, ROOT_ACCOUNT_SIZE, SYSTEM_PROGRAM_ID, TOKEN_2022_PROGRAM_ID, TOKEN_ACCOUNT_SIZE,
    TOKEN_HOLDING_SIZE, TOKEN_TAG,
};
use crate::context::{
    assembled, derive_trade_addresses, trade_addresses, Context, TradeAddresses, AUTHORITY,
    CLIENT_HYPE, CLIENT_TOKENS, CUSTODY, HYPE_MINT, REFERRER, RESERVE, ROOT, SIGNER, TOKEN,
    TOKEN_2022_PROGRAM, TRADE_ACCOUNTS,
};
use crate::curve::{mint_quote, quote_mint};
use crate::error::{Failure, HypeError};
use crate::fees::{fee_split, get_referral_terms, referral_terms, split_fees};
use crate::binary64::{from_whole, product, whole_part, Binary64};
use crate::ledger::{network_record, read_network};
use crate::log::Event;
use crate::naming::{
    check_name, mint_account_len, mint_account_size, mint_len_with_pointer, name_check,
    MINT_SPACE,
};
use crate::rent::{rent_exempt_minimum, rent_minimum};
use crate::state::client::ClientAccount;
use crate::state::root::RootAccount;
use crate::state::token::TokenAccount;
use crate::trade::{
    add_totals, client_totals, curve_of, get_curve, make_trade_record, payments,
    put_payments, put_referrer_account, read_supply, referrer_account_actions, root_totals,
    stored_supply, token_totals, totals_fit, trade_record, transfer_decimals, Trade,
};
use vstd::prelude::*;
use vstd::slice::slice_subrange;

verus! {

/// Offset of the nickname in the data of a mint; read only where the client account is
/// created with the trade.
pub const MINT_NICKNAME_OFFSET: usize = 48;

/// The token record of a mint, as it is before the trade is settled.
#[derive(Clone, Copy, Debug, PartialEq, Eq)]
pub struct Listing {
    /// The root ledger; a token listed here is already counted.
    pub root: RootAccount,
    /// The client account; a token listed here is already counted.
    pub client: ClientAccount,
    /// The token record.
    pub token: TokenAccount,
    /// Whether the token is listed with this trade.
    pub created: bool,
    /// The flat fee of a first mint, in smallest units; zero for a listed token.
    pub creation_fee: u64,
}

/// The derivation against which the token record of a mint is checked: the entry of the
/// external address and the network in `data`, under the program's authority.
pub open spec fn minted_token_entry(
    program_id: Address,
    accounts: Seq<AccountView>,
    data: Seq<u8>,
    addresses: TradeAddresses,
) -> Option<(Address, u8)> {
    if accounts.len() >= TRADE_ACCOUNTS && data.len() >= 32 && accounts[ROOT as int].data@.len()
        >= ROOT_ACCOUNT_SIZE && addresses.authority is Some {
        derived(
            entry_seeds(
                token_seed(
                    RootAccount::unpacked(accounts[ROOT as int].data@).version,
                    u32_at(data, 4),
                    data.subrange(8, 32),
                ),
                addresses.authority->Some_0.0,
            ),
            program_id,
        )
    } else {
        None
    }
}

/// The token record that a first mint writes.
pub open spec fn new_token(accounts: Seq<AccountView>, data: Seq<u8>, ctx: Context) -> TokenAccount {
    TokenAccount {
        tag: TOKEN_TAG,
        version: ctx.root.version,
        id: ctx.root.tokens_count,
        mint: accounts[HYPE_MINT as int].key,
        program_address: accounts[CUSTODY as int].key,
        creator: accounts[SIGNER as int].key,
        creation_time: ctx.time,
        time: ctx.time,
        supply: 0,
        address: bytes_24(data.subrange(8, 32)),
        network: u32_at(data, 4),
        reserved: 0,
        slot: ctx.slot,
        all_time_trades_count: 0,
        all_time_base_crncy_volume: 0,
        all_time_tokens_volume: 0,
        status: NOT_CHECKED,
    }
}

/// The intents of a first mint, in order: the token record's account; the mint with its
/// metadata pointer, its authority and its label; the custody account for burned tokens.
pub open spec fn listing_actions(
    program_id: Address,
    accounts: Seq<AccountView>,
    data: Seq<u8>,
    ctx: Context,
    descriptor: [u8; 32],
    bump: u8,
) -> Seq<Action> {
    let signer = accounts[SIGNER as int].key;
    let mint = accounts[HYPE_MINT as int].key;
    let program = Signer::Program { bump: ctx.hype_bump_seed };
    seq![
        Action::CreateAccount {
            payer: signer,
            account: accounts[TOKEN as int].key,
            lamports: rent_minimum(TOKEN_ACCOUNT_SIZE as nat) as u64,
            space: TOKEN_ACCOUNT_SIZE as u64,
            owner: program_id,
            signer: Signer::Token {
                version: ctx.root.version,
                network: u32_at(data, 4),
                address: bytes_24(data.subrange(8, 32)),
                base: ctx.hype_auth,
                bump,
            },
        },
        Action::CreateAccount {
            payer: signer,
            account: mint,
            lamports: rent_minimum(mint_account_size(data.subrange(8, 32), descriptor@)) as u64,
            space: MINT_SPACE as u64,
            owner: Address { bytes: TOKEN_2022_PROGRAM_ID },
            signer: Signer::Wallet,
        },
        Action::InitializeMetadataPointer { mint, authority: ctx.hype_auth, metadata: mint },
        Action::InitializeMint {
            mint,
            authority: ctx.hype_auth,
            decimals: transfer_decimals(ctx.root),
            signer: program,
        },
        Action::InitializeMetadata {
            mint,
            authority: ctx.hype_auth,
            address: bytes_24(data.subrange(8, 32)),
            descriptor,
            signer: program,
        },
        Action::CreateAccount {
            payer: signer,
            account: accounts[CUSTODY as int].key,
            lamports: rent_minimum(TOKEN_HOLDING_SIZE as nat) as u64,
            space: TOKEN_HOLDING_SIZE as u64,
            owner: accounts[TOKEN_2022_PROGRAM as int].key,
            signer: Signer::Wallet,
        },
        Action::InitializeHolding {
            token_program: accounts[TOKEN_2022_PROGRAM as int].key,
            account: accounts[CUSTODY as int].key,
            mint,
            owner: ctx.hype_auth,
            signer: program,
        },
    ]
}

/// The record of a token that is already listed: this program owns it, and it is the record
/// of the network and of the mint that the trade names.
pub open spec fn existing_listing(
    program_id: Address,
    accounts: Seq<AccountView>,
    data: Seq<u8>,
    ctx: Context,
) -> Result<(Listing, EffectsModel), Failure> {
    if accounts[TOKEN as int].owner != program_id || accounts[TOKEN as int].data@.len()
        < TOKEN_ACCOUNT_SIZE {
        Err(Failure::Custom(HypeError::InvalidTokenAccount))
    } else {
        let token = TokenAccount::unpacked(accounts[TOKEN as int].data@);
        if token.network != u32_at(data, 4) {
            Err(Failure::Custom(HypeError::InvalidNetworkId))
        } else if token.mint != accounts[HYPE_MINT as int].key {
            Err(Failure::Custom(HypeError::InvalidTokenAccount))
        } else {
            Ok(
                (
                    Listing {
                        root: ctx.root,
                        client: ctx.client,
                        token,
                        created: false,
                        creation_fee: 0,
                    },
                    EffectsModel { actions: Seq::empty() },
                ),
            )
        }
    }
}

/// The flat fee of a first mint in smallest units: the whole part of the root ledger's
/// creation fee times its decimals factor.
pub open spec fn creation_fee_of(root: RootAccount) -> u64 {
    whole_part(
        product(
            Binary64 { bits: root.creation_fee },
            from_whole(root.base_crncy_decs_factor as u64),
        ),
    )
}

/// The listing of a token with its first mint: the mint account must not exist yet, and the
/// network must accept the external address. The flat creation fee of the root ledger is
/// due, in smallest units and truncated.
pub open spec fn first_listing(
    program_id: Address,
    accounts: Seq<AccountView>,
    data: Seq<u8>,
    ctx: Context,
    bump: u8,
) -> Result<(Listing, EffectsModel), Failure> {
    if accounts[HYPE_MINT as int].owner.bytes != SYSTEM_PROGRAM_ID {
        Err(Failure::Custom(HypeError::InvalidTokenMint))
    } else {
        match network_record(accounts[ROOT as int].data@, u32_at(data, 4)) {
            None => Err(Failure::Custom(HypeError::InvalidNetworkId)),
            Some(network) => match name_check(
                data.subrange(8, 32),
                network.mask@,
                network.max_length,
            ) {
                Err(e) => Err(Failure::Custom(e)),
                Ok(_) => {
                    let creation_fee = creation_fee_of(ctx.root);
                    if ctx.root.tokens_count == u64::MAX || ctx.client.tokens_created
                        == u32::MAX {
                        Err(Failure::Custom(HypeError::ArithmeticOverflow))
                    } else {
                        Ok(
                            (
                                Listing {
                                    root: RootAccount {
                                        tokens_count: (ctx.root.tokens_count + 1) as u64,
                                        ..ctx.root
                                    },
                                    client: ClientAccount {
                                        tokens_created: (ctx.client.tokens_created + 1) as u32,
                                        ..ctx.client
                                    },
                                    token: new_token(accounts, data, ctx),
                                    created: true,
                                    creation_fee,
                                },
                                EffectsModel {
                                    actions: listing_actions(
                                        program_id,
                                        accounts,
                                        data,
                                        ctx,
                                        network.descriptor,
                                        bump,
                                    ).push(
                                        Action::Log(
                                            Event::NewToken {
                                                client_id: ctx.client.id,
                                                order_id: ctx.root.counter,
                                                token_id: ctx.root.tokens_count,
                                                network_id: u32_at(data, 4),
                                                mint: accounts[HYPE_MINT as int].key,
                                                creator: accounts[SIGNER as int].key,
                                                address: bytes_24(data.subrange(8, 32)),
                                                time: ctx.time,
                                                slot: ctx.slot,
                                            },
                                        ),
                                    ),
                                },
                            ),
                        )
                    }
                },
            }
        }
    }
}

/// The token record of a mint: read where the token is listed, created where its account
/// still belongs to the system program.
///
/// `data` holds the network at offset 4 and the external address at offset 8. The network
/// must be one of the root ledger, and the token record must lie at the address derived from
/// the network and the external address.
pub open spec fn listing(
    program_id: Address,
    accounts: Seq<AccountView>,
    data: Seq<u8>,
    ctx: Context,
    token_entry: Option<(Address, u8)>,
) -> Result<(Listing, EffectsModel), Failure> {
    if data.len() < 48 {
        Err(Failure::Custom(HypeError::InvalidDataLength))
    } else if u32_at(data, 4) >= ctx.root.networks_count {
        Err(Failure::Custom(HypeError::InvalidNetworkId))
    } else {
        match existing_account_check(accounts[TOKEN as int].key, token_entry) {
            Err(e) => Err(e),
            Ok(bump) => if accounts[TOKEN as int].owner.bytes != SYSTEM_PROGRAM_ID {
                existing_listing(program_id, accounts, data, ctx)
            } else {
                first_listing(program_id, accounts, data, ctx, bump)
            },
        }
    }
}

/// The intents that settle a mint, in order: the wallet's token account for the traded token
/// and the referrer's token account are created where they are missing; the wallet pays the
/// reserve and the referrer; the tokens are minted to the wallet.
pub open spec fn mint_actions(
    accounts: Seq<AccountView>,
    ctx: Context,
    amount: u64,
    due: u64,
    referral_fee: u64,
) -> Seq<Action> {
    let wallet_account = if accounts[CLIENT_HYPE as int].owner.bytes == SYSTEM_PROGRAM_ID {
        seq![
            Action::CreateAssociatedAccount {
                funder: accounts[SIGNER as int].key,
                wallet: accounts[SIGNER as int].key,
                mint: accounts[HYPE_MINT as int].key,
                token_program: accounts[TOKEN_2022_PROGRAM as int].key,
            },
        ]
    } else {
        Seq::empty()
    };
    wallet_account + referrer_account_actions(accounts, referral_fee) + payments(
        accounts,
        ctx.root,
        accounts[CLIENT_TOKENS as int].key,
        accounts[RESERVE as int].key,
        accounts[SIGNER as int].key,
        Signer::Wallet,
        due,
        referral_fee,
    ) + seq![
        Action::MintTo {
            mint: accounts[HYPE_MINT as int].key,
            destination: accounts[CLIENT_HYPE as int].key,
            authority: accounts[AUTHORITY as int].key,
            amount,
            signer: Signer::Program { bump: ctx.hype_bump_seed },
        },
    ]
}

/// Whether the sums of a mint fit their fields.
pub open spec fn mint_fits(l: Listing, amount: u64, cost: u64, fees: crate::fees::FeeSplit) -> bool {
    &&& cost + fees.operator + fees.holder <= u64::MAX
    &&& l.root.supply + amount <= u64::MAX
    &&& l.root.tvl + cost <= u64::MAX
    &&& l.token.supply + amount <= u64::MAX
    &&& totals_fit(l.root, l.client, l.token, amount, cost, fees)
}

/// What a mint gives once the token record is at hand.
///
/// `data` holds the amount at offset 32 and the most acceptable cost at offset 40, zero for
/// none. The supply stored in the mint must be the supply of the token record; a mint that
/// is created with this trade has none. The curve bounds the supply of the token, and the
/// supply of all tokens of the root ledger together may not pass the maximum supply either.
/// The fee is the trade fee plus the creation fee of a first mint. The wallet pays the cost
/// and the shares of holder and operator into the reserve, and the referrer's share to the
/// referrer. The trade is logged once its intents are carried out.
pub open spec fn mint_settlement(
    accounts: Seq<AccountView>,
    data: Seq<u8>,
    ctx: Context,
    l: Listing,
) -> Result<(Trade, EffectsModel), Failure> {
    let supply = if l.created {
        Some(0u64)
    } else {
        stored_supply(accounts[HYPE_MINT as int].data@)
    };
    if supply != Some(l.token.supply) {
        Err(Failure::Custom(HypeError::InvalidTokenSupply))
    } else {
        let amount = u64_at(data, 32);
        if l.root.supply + amount > l.root.max_supply {
            Err(Failure::Custom(HypeError::InvalidSupply))
        } else {
            match mint_quote(curve_of(l.root), l.token.supply, amount, u64_at(data, 40)) {
                Err(e) => Err(Failure::Custom(e)),
                Ok(quote) => if quote.fee + l.creation_fee > u64::MAX {
                    Err(Failure::Custom(HypeError::ArithmeticOverflow))
                } else {
                    let total = (quote.fee + l.creation_fee) as u64;
                    match fee_split(
                        total,
                        Binary64 { bits: l.root.fee_ratio },
                        referral_terms(l.client, ctx.time, accounts[REFERRER as int].key),
                    ) {
                        Err(e) => Err(Failure::Custom(e)),
                        Ok(fees) => if !mint_fits(l, amount, quote.amount, fees) {
                            Err(Failure::Custom(HypeError::ArithmeticOverflow))
                        } else {
                            let root = RootAccount {
                                supply: (l.root.supply + amount) as u64,
                                tvl: (l.root.tvl + quote.amount) as u64,
                                ..root_totals(l.root, amount, quote.amount, fees, ctx.slot, ctx.time)
                            };
                            let client = client_totals(
                                l.client,
                                amount,
                                quote.amount,
                                fees,
                                ctx.slot,
                                ctx.time,
                            );
                            let token = TokenAccount {
                                supply: (l.token.supply + amount) as u64,
                                ..token_totals(l.token, amount, quote.amount, ctx.slot, ctx.time)
                            };
                            Ok(
                                (
                                    Trade {
                                        root,
                                        client,
                                        token,
                                        client_created: ctx.client_created,
                                        token_created: l.created,
                                        amount,
                                        base_amount: quote.amount,
                                        total_fee: total,
                                        fees,
                                    },
                                    EffectsModel {
                                        actions: mint_actions(
                                            accounts,
                                            ctx,
                                            amount,
                                            (quote.amount + fees.operator + fees.holder) as u64,
                                            fees.referral,
                                        ).push(
                                            Action::Log(
                                                Event::Mint(
                                                    trade_record(
                                                        root,
                                                        client,
                                                        token,
                                                        accounts[SIGNER as int].key,
                                                        amount,
                                                        quote.amount,
                                                        ctx.slot,
                                                        ctx.time,
                                                    ),
                                                ),
                                            ),
                                        ),
                                    },
                                ),
                            )
                        },
                    }
                },
            }
        }
    }
}

/// A mint moves the totals by exactly what was traded: supplies by the amount, the reserve
/// held by the cost, the fee pools and the referrer's account by their shares. The supply of
/// the token stays below the maximum supply of the curve, and the supply of the root ledger
/// at or below it. The referral binding of the client, the curve and the fee schedule of the
/// root ledger and the status of the token are what they were.
pub proof fn mint_tracks_the_trade(accounts: Seq<AccountView>, data: Seq<u8>, ctx: Context, l: Listing)
    requires
        mint_settlement(accounts, data, ctx, l) is Ok,
    ensures
        ({
            let t = mint_settlement(accounts, data, ctx, l)->Ok_0.0;
            &&& t.amount > 0
            &&& t.token.supply == l.token.supply + t.amount
            &&& t.token.supply < l.root.max_supply
            &&& t.root.supply == l.root.supply + t.amount
            &&& t.root.supply <= t.root.max_supply
            &&& t.root.tvl == l.root.tvl + t.base_amount
            &&& t.root.fees == l.root.fees + t.fees.operator
            &&& t.root.holder_fees == l.root.holder_fees + t.fees.holder
            &&& t.root.counter == l.root.counter + 1
            &&& t.client.ref_paid == l.client.ref_paid + t.fees.referral
            &&& t.total_fee >= l.creation_fee
            &&& t.client.ref_address == l.client.ref_address
            &&& t.client.ref_stop == l.client.ref_stop
            &&& t.client.ref_discount == l.client.ref_discount
            &&& t.client.ref_ratio == l.client.ref_ratio
            &&& curve_of(t.root) == curve_of(l.root)
            &&& t.root.fee_ratio == l.root.fee_ratio
            &&& t.root.admin == l.root.admin
            &&& t.root.networks_count == l.root.networks_count
            &&& t.token.status == l.token.status
            &&& t.token.mint == l.token.mint
        }),
{
}

/// A mint that would bring the supply of the root ledger above its maximum supply is refused,
/// whatever the cost, where the supply stored in the mint is the one on record.
pub proof fn mint_keeps_the_supply_bound(
    accounts: Seq<AccountView>,
    data: Seq<u8>,
    ctx: Context,
    l: Listing,
)
    requires
        l.root.supply + u64_at(data, 32) > l.root.max_supply,
    ensures
        mint_settlement(accounts, data, ctx, l) is Err,
        mint_settlement(accounts, data, ctx, l) != Err::<(Trade, EffectsModel), Failure>(
            Failure::Custom(HypeError::InvalidTokenSupply),
        ) ==> mint_settlement(accounts, data, ctx, l) == Err::<(Trade, EffectsModel), Failure>(
            Failure::Custom(HypeError::InvalidSupply),
        ),
{
}

/// What a mint gives: the entries after the trade, the intents and the audit events, those of
/// a client account and of a token created on the way included; or the failure.
pub open spec fn mint_model(
    program_id: Address,
    accounts: Seq<AccountView>,
    data: Seq<u8>,
    clock: Clock,
    addresses: TradeAddresses,
    token_entry: Option<(Address, u8)>,
) -> Result<(Trade, EffectsModel), Failure> {
    match assembled(program_id, accounts, data, MINT_NICKNAME_OFFSET, clock, addresses) {
        Err(e) => Err(e),
        Ok((ctx, opening)) => match listing(program_id, accounts, data, ctx, token_entry) {
            Err(e) => Err(e),
            Ok((l, listed)) => match mint_settlement(accounts, data, ctx, l) {
                Err(e) => Err(e),
                Ok((trade, closing)) => Ok(
                    (
                        trade,
                        EffectsModel {
                            actions: opening.actions + listed.actions + closing.actions,
                        },
                    ),
                ),
            },
        },
    }
}

fn read_existing_listing(
    program_id: &Address,
    accounts: &[AccountView],
    data: &[u8],
    ctx: &Context,
) -> (r: Result<(Listing, Effects), Failure>)
    requires
        accounts.len() >= TRADE_ACCOUNTS,
        data.len() >= 48,
    ensures
        agrees(r, existing_listing(*program_id, accounts@, data@, *ctx)),
{
    if !accounts[TOKEN].owner.equals(program_id) {
        return Err(Failure::Custom(HypeError::InvalidTokenAccount));
    }
    let token = match TokenAccount::unpack(accounts[TOKEN].data.as_slice()) {
        Some(token) => token,
        None => {
            return Err(Failure::Custom(HypeError::InvalidTokenAccount));
        },
    };
    if token.network != read_u32(data, 4) {
        return Err(Failure::Custom(HypeError::InvalidNetworkId));
    }
    if !token.mint.equals(&accounts[HYPE_MINT].key) {
        return Err(Failure::Custom(HypeError::InvalidTokenAccount));
    }
    let actions: Vec<Action> = Vec::new();
    proof {
        let model = existing_listing(*program_id, accounts@, data@, *ctx);
        assert(actions@ =~= model->Ok_0.1.actions);
    }
    Ok(
        (
            Listing { root: ctx.root, client: ctx.client, token, created: false, creation_fee: 0 },
            Effects { actions },
        ),
    )
}

fn create_listing(
    program_id: &Address,
    accounts: &[AccountView],
    data: &[u8],
    ctx: &Context,
    bump: u8,
) -> (r: Result<(Listing, Effects), Failure>)
    requires
        accounts.len() >= TRADE_ACCOUNTS,
        data.len() >= 48,
    ensures
        agrees(r, first_listing(*program_id, accounts@, data@, *ctx, bump)),
{
    if !accounts[HYPE_MINT].owner.is_system_program() {
        return Err(Failure::Custom(HypeError::InvalidTokenMint));
    }
    let network_id = read_u32(data, 4);
    let network = match read_network(accounts[ROOT].data.as_slice(), network_id) {
        Some(network) => network,
        None => {
            return Err(Failure::Custom(HypeError::InvalidNetworkId));
        },
    };
    match check_name(slice_subrange(data, 8, 32), &network.mask, network.max_length) {
        Ok(_) => {},
        Err(e) => {
            return Err(Failure::Custom(e));
        },
    }
    let creation_fee = Binary64::from_bits(ctx.root.creation_fee).times(
        &Binary64::from_u64(ctx.root.base_crncy_decs_factor as u64),
    ).to_u64();
    if ctx.root.tokens_count == u64::MAX || ctx.client.tokens_created == u32::MAX {
        return Err(Failure::Custom(HypeError::ArithmeticOverflow));
    }
    let address = read_24(data, 8);
    let signer = accounts[SIGNER].key;
    let mint = accounts[HYPE_MINT].key;
    let program = Signer::Program { bump: ctx.hype_bump_seed };
    let token = TokenAccount {
        tag: TOKEN_TAG,
        version: ctx.root.version,
        id: ctx.root.tokens_count,
        mint,
        program_address: accounts[CUSTODY].key,
        creator: signer,
        creation_time: ctx.time,
        time: ctx.time,
        supply: 0,
        address,
        network: network_id,
        reserved: 0,
        slot: ctx.slot,
        all_time_trades_count: 0,
        all_time_base_crncy_volume: 0,
        all_time_tokens_volume: 0,
        status: NOT_CHECKED,
    };
    let mut root = ctx.root;
    root.tokens_count = ctx.root.tokens_count + 1;
    let mut client = ctx.client;
    client.tokens_created = ctx.client.tokens_created + 1;
    let record_rent = match rent_exempt_minimum(TOKEN_ACCOUNT_SIZE) {
        Some(v) => v,
        None => {
            return Err(Failure::InvalidRealloc);
        },
    };
    let space = mint_len_with_pointer().unwrap();
    let mint_rent = match rent_exempt_minimum(
        mint_account_len(&address, &network.descriptor, &ctx.hype_auth, &mint),
    ) {
        Some(v) => v,
        None => {
            return Err(Failure::InvalidRealloc);
        },
    };
    let custody_rent = match rent_exempt_minimum(TOKEN_HOLDING_SIZE) {
        Some(v) => v,
        None => {
            return Err(Failure::InvalidRealloc);
        },
    };
    let mut actions: Vec<Action> = Vec::new();
    actions.push(
        Action::CreateAccount {
            payer: signer,
            account: accounts[TOKEN].key,
            lamports: record_rent,
            space: TOKEN_ACCOUNT_SIZE as u64,
            owner: *program_id,
            signer: Signer::Token {
                version: ctx.root.version,
                network: network_id,
                address,
                base: ctx.hype_auth,
                bump,
            },
        },
    );
    actions.push(
        Action::CreateAccount {
            payer: signer,
            account: mint,
            lamports: mint_rent,
            space: space as u64,
            owner: Address { bytes: TOKEN_2022_PROGRAM_ID },
            signer: Signer::Wallet,
        },
    );
    actions.push(
        Action::InitializeMetadataPointer { mint, authority: ctx.hype_auth, metadata: mint },
    );
    actions.push(
        Action::InitializeMint {
            mint,
            authority: ctx.hype_auth,
            decimals: (ctx.root.decimals % 256) as u8,
            signer: program,
        },
    );
    actions.push(
        Action::InitializeMetadata {
            mint,
            authority: ctx.hype_auth,
            address,
            descriptor: network.descriptor,
            signer: program,
        },
    );
    actions.push(
        Action::CreateAccount {
            payer: signer,
            account: accounts[CUSTODY].key,
            lamports: custody_rent,
            space: TOKEN_HOLDING_SIZE as u64,
            owner: accounts[TOKEN_2022_PROGRAM].key,
            signer: Signer::Wallet,
        },
    );
    actions.push(
        Action::InitializeHolding {
            token_program: accounts[TOKEN_2022_PROGRAM].key,
            account: accounts[CUSTODY].key,
            mint,
            owner: ctx.hype_auth,
            signer: program,
        },
    );
    actions.push(
        Action::Log(
            Event::NewToken {
                client_id: ctx.client.id,
                order_id: ctx.root.counter,
                token_id: ctx.root.tokens_count,
                network_id,
                mint,
                creator: signer,
                address,
                time: ctx.time,
                slot: ctx.slot,
            },
        ),
    );
    proof {
        let model = first_listing(*program_id, accounts@, data@, *ctx, bump);
        assert(address@ == data@.subrange(8, 32));
        assert(model is Ok);
        assert(actions@ =~= model->Ok_0.1.actions);
    }
    Ok(
        (
            Listing { root, client, token, created: true, creation_fee },
            Effects { actions },
        ),
    )
}

/// Reads or creates the token record of a mint, given the derivation of its address.
pub fn resolve_listing(
    program_id: &Address,
    accounts: &[AccountView],
    data: &[u8],
    ctx: &Context,
    token_entry: Option<(Address, u8)>,
) -> (r: Result<(Listing, Effects), Failure>)
    requires
        accounts.len() >= TRADE_ACCOUNTS,
    ensures
        agrees(r, listing(*program_id, accounts@, data@, *ctx, token_entry)),
{
    if data.len() < 48 {
        return Err(Failure::Custom(HypeError::InvalidDataLength));
    }
    if read_u32(data, 4) >= ctx.root.networks_count {
        return Err(Failure::Custom(HypeError::InvalidNetworkId));
    }
    let bump = verify_existing(&accounts[TOKEN].key, token_entry)?;
    if !accounts[TOKEN].owner.is_system_program() {
        read_existing_listing(program_id, accounts, data, ctx)
    } else {
        create_listing(program_id, accounts, data, ctx, bump)
    }
}

/// Settles a mint whose token record is at hand.
pub fn settle_mint(accounts: &[AccountView], data: &[u8], ctx: &Context, l: &Listing) -> (r: Result<
    (Trade, Effects),
    Failure,
>)
    requires
        accounts.len() >= TRADE_ACCOUNTS,
        data.len() >= 48,
    ensures
        agrees(r, mint_settlement(accounts@, data@, *ctx, *l)),
{
    let supply = if l.created {
        Some(0u64)
    } else {
        read_supply(accounts[HYPE_MINT].data.as_slice())
    };
    match supply {
        Some(supply) => if supply != l.token.supply {
            return Err(Failure::Custom(HypeError::InvalidTokenSupply));
        },
        None => {
            return Err(Failure::Custom(HypeError::InvalidTokenSupply));
        },
    }
    let amount = read_u64(data, 32);
    let max_cost = read_u64(data, 40);
    let curve = get_curve(&l.root);
    if amount > l.root.max_supply || l.root.supply > l.root.max_supply - amount {
        return Err(Failure::Custom(HypeError::InvalidSupply));
    }
    let quote = match quote_mint(&curve, l.token.supply, amount, max_cost) {
        Ok(quote) => quote,
        Err(e) => {
            return Err(Failure::Custom(e));
        },
    };
    let total = match quote.fee.checked_add(l.creation_fee) {
        Some(total) => total,
        None => {
            return Err(Failure::Custom(HypeError::ArithmeticOverflow));
        },
    };
    let terms = get_referral_terms(&l.client, ctx.time, &accounts[REFERRER].key);
    let fees = match split_fees(total, Binary64::from_bits(l.root.fee_ratio), terms) {
        Ok(fees) => fees,
        Err(e) => {
            return Err(Failure::Custom(e));
        },
    };
    let overflow: Result<(Trade, Effects), Failure> = Err(
        Failure::Custom(HypeError::ArithmeticOverflow),
    );
    let due = match quote.amount.checked_add(fees.operator) {
        Some(v) => match v.checked_add(fees.holder) {
            Some(due) => due,
            None => {
                return overflow;
            },
        },
        None => {
            return overflow;
        },
    };
    let root_supply = match l.root.supply.checked_add(amount) {
        Some(v) => v,
        None => {
            return overflow;
        },
    };
    let root_tvl = match l.root.tvl.checked_add(quote.amount) {
        Some(v) => v,
        None => {
            return overflow;
        },
    };
    let token_supply = match l.token.supply.checked_add(amount) {
        Some(v) => v,
        None => {
            return overflow;
        },
    };
    let (mut root, client, mut token) = match add_totals(
        &l.root,
        &l.client,
        &l.token,
        amount,
        quote.amount,
        &fees,
        ctx.slot,
        ctx.time,
    ) {
        Some(totals) => totals,
        None => {
            return overflow;
        },
    };
    root.supply = root_supply;
    root.tvl = root_tvl;
    token.supply = token_supply;
    let mut actions: Vec<Action> = Vec::new();
    if accounts[CLIENT_HYPE].owner.is_system_program() {
        actions.push(
            Action::CreateAssociatedAccount {
                funder: accounts[SIGNER].key,
                wallet: accounts[SIGNER].key,
                mint: accounts[HYPE_MINT].key,
                token_program: accounts[TOKEN_2022_PROGRAM].key,
            },
        );
    }
    put_referrer_account(&mut actions, accounts, fees.referral);
    put_payments(
        &mut actions,
        accounts,
        &ctx.root,
        &accounts[CLIENT_TOKENS].key,
        &accounts[RESERVE].key,
        &accounts[SIGNER].key,
        Signer::Wallet,
        due,
        fees.referral,
    );
    actions.push(
        Action::MintTo {
            mint: accounts[HYPE_MINT].key,
            destination: accounts[CLIENT_HYPE].key,
            authority: accounts[AUTHORITY].key,
            amount,
            signer: Signer::Program { bump: ctx.hype_bump_seed },
        },
    );
    actions.push(
        Action::Log(
            Event::Mint(
                make_trade_record(
                    &root,
                    &client,
                    &token,
                    &accounts[SIGNER].key,
                    amount,
                    quote.amount,
                    ctx.slot,
                    ctx.time,
                ),
            ),
        ),
    );
    proof {
        let model = mint_settlement(accounts@, data@, *ctx, *l);
        assert(model is Ok);
        assert(actions@ =~= model->Ok_0.1.actions);
    }
    Ok(
        (
            Trade {
                root,
                client,
                token,
                client_created: ctx.client_created,
                token_created: l.created,
                amount,
                base_amount: quote.amount,
                total_fee: total,
                fees,
            },
            Effects { actions },
        ),
    )
}

/// Mints tokens, given the derived addresses of the trade and the derivation of the token
/// record.
pub fn mint_with(
    program_id: &Address,
    accounts: &[AccountView],
    data: &[u8],
    clock: &Clock,
    addresses: &TradeAddresses,
    token_entry: Option<(Address, u8)>,
) -> (r: Result<(Trade, Effects), Failure>)
    ensures
        agrees(r, mint_model(*program_id, accounts@, data@, *clock, *addresses, token_entry)),
{
    let (ctx, opening) = Context::assemble(
        program_id,
        accounts,
        data,
        MINT_NICKNAME_OFFSET,
        clock,
        addresses,
    )?;
    let (l, listed) = resolve_listing(program_id, accounts, data, &ctx, token_entry)?;
    let (trade, closing) = settle_mint(accounts, data, &ctx, &l)?;
    let mut actions = opening.actions;
    let mut listed_actions = listed.actions;
    let mut closing_actions = closing.actions;
    actions.append(&mut listed_actions);
    actions.append(&mut closing_actions);
    Ok((trade, Effects { actions }))
}

/// Derives the address at which the token record of a mint must lie.
pub fn derive_token_entry(
    program_id: &Address,
    accounts: &[AccountView],
    data: &[u8],
    addresses: &TradeAddresses,
) -> (r: Option<(Address, u8)>)
    ensures
        r == minted_token_entry(*program_id, accounts@, data@, *addresses),
{
    if accounts.len() < TRADE_ACCOUNTS || data.len() < 32 {
        return None;
    }
    match (RootAccount::unpack(accounts[ROOT].data.as_slice()), addresses.authority) {
        (Some(root), Some((hype_auth, _))) => {
            let seed = get_token_seed_bytes(
                root.version,
                read_u32(data, 4),
                slice_subrange(data, 8, 32),
            );
            derive_entry(seed.as_slice(), &hype_auth, program_id)
        },
        _ => None,
    }
}

/// Mints tokens to the trading wallet: the wallet pays the cost on the curve and the fee, a
/// token that is not yet listed is listed on the way, and the totals of root ledger, client
/// and token record follow.
pub fn mint(program_id: &Address, accounts: &[AccountView], data: &[u8], clock: &Clock) -> (r:
    Result<(Trade, Effects), Failure>)
    ensures
        agrees(
            r,
            mint_model(
                *program_id,
                accounts@,
                data@,
                *clock,
                trade_addresses(*program_id, accounts@),
                minted_token_entry(
                    *program_id,
                    accounts@,
                    data@,
                    trade_addresses(*program_id, accounts@),
                ),
            ),
        ),
{
    let addresses = derive_trade_addresses(program_id, accounts);
    let token_entry = derive_token_entry(program_id, accounts, data, &addresses);
    mint_with(program_id, accounts, data, clock, &addresses, token_entry)
}

} // verus!
