//! The burn processor: tokens are returned to the curve for base currency.

use crate::account::{AccountView, Clock};
use crate::action::{agrees, Action, Effects, EffectsModel, Signer};
use crate::address::Address;
use crate::bytes::{read_u64, u64_at};
use crate::constants::{SYSTEM_PROGRAM_ID, TOKEN_2022_PROGRAM_ID, TOKEN_ACCOUNT_SIZE};
use crate::context::{
    assembled, derive_trade_addresses, trade_addresses, Context, TradeAddresses, AUTHORITY,
    BASE_MINT, CLIENT_HYPE, CLIENT_TOKENS, CUSTODY, HYPE_MINT, REFERRER, RESERVE, SIGNER, TOKEN,
    TOKEN_PROGRAM, TRADE_ACCOUNTS,
};
use crate::curve::{burn_quote, quote_burn};
use crate::error::{Failure, HypeError};
use crate::fees::{fee_split, get_referral_terms, referral_terms, split_fees};
use crate::binary64::Binary64;
use crate::log::Event;
use crate::state::root::RootAccount;
use crate::state::token::TokenAccount;
use crate::trade::{
    add_totals, client_totals, curve_of, get_curve, make_trade_record, payments,
    put_payments, put_referrer_account, read_supply, referrer_account_actions, root_totals,
    stored_supply, token_totals, totals_fit, trade_record, transfer_decimals, Trade,
};
use vstd::prelude::*;

verus! {

/// Offset of the nickname in the data of a burn; read only where the client account is
/// created with the trade.
pub const BURN_NICKNAME_OFFSET: usize = 24;

/// The token record of a burn: this program owns it and it is the record of the mint that
/// the trade names.
pub open spec fn burned_token(program_id: Address, accounts: Seq<AccountView>) -> Result<
    TokenAccount,
    Failure,
> {
    if accounts[TOKEN as int].data@.len() < TOKEN_ACCOUNT_SIZE || TokenAccount::unpacked(
        accounts[TOKEN as int].data@,
    ).mint != accounts[HYPE_MINT as int].key || accounts[TOKEN as int].owner != program_id {
        Err(Failure::Custom(HypeError::InvalidTokenAccount))
    } else {
        Ok(TokenAccount::unpacked(accounts[TOKEN as int].data@))
    }
}

/// The intents of a burn, in order: the wallet's token account for the base currency and the
/// referrer's are created where they are missing; the reserve pays the wallet and the
/// referrer; the tokens move from the wallet into custody and are retired there.
pub open spec fn burn_actions(
    accounts: Seq<AccountView>,
    ctx: Context,
    amount: u64,
    payout: u64,
    referral_fee: u64,
) -> Seq<Action> {
    let wallet_account = if accounts[CLIENT_TOKENS as int].owner.bytes == SYSTEM_PROGRAM_ID {
        seq![
            Action::CreateAssociatedAccount {
                funder: accounts[SIGNER as int].key,
                wallet: accounts[SIGNER as int].key,
                mint: accounts[BASE_MINT as int].key,
                token_program: accounts[TOKEN_PROGRAM as int].key,
            },
        ]
    } else {
        Seq::empty()
    };
    wallet_account + referrer_account_actions(accounts, referral_fee) + payments(
        accounts,
        ctx.root,
        accounts[RESERVE as int].key,
        accounts[CLIENT_TOKENS as int].key,
        ctx.hype_auth,
        Signer::Program { bump: ctx.hype_bump_seed },
        payout,
        referral_fee,
    ) + seq![
        Action::Transfer {
            token_program: Address { bytes: TOKEN_2022_PROGRAM_ID },
            source: accounts[CLIENT_HYPE as int].key,
            mint: accounts[HYPE_MINT as int].key,
            destination: accounts[CUSTODY as int].key,
            authority: accounts[SIGNER as int].key,
            amount,
            decimals: transfer_decimals(ctx.root),
            checked: true,
            signer: Signer::Wallet,
        },
        Action::Burn {
            account: accounts[CUSTODY as int].key,
            mint: accounts[HYPE_MINT as int].key,
            authority: accounts[AUTHORITY as int].key,
            amount,
            signer: Signer::Program { bump: ctx.hype_bump_seed },
        },
    ]
}

/// What a burn gives once its context is assembled.
///
/// `data` holds the amount at offset 8 and the least acceptable return at offset 16, zero for
/// none. The supply stored in the mint must be the supply of the token record. The wallet is
/// paid the return less the whole fee; the supply and the reserve of the root ledger may not
/// fall below zero.
pub open spec fn burn_settlement(
    program_id: Address,
    accounts: Seq<AccountView>,
    data: Seq<u8>,
    ctx: Context,
) -> Result<(Trade, EffectsModel), Failure> {
    if data.len() < 24 {
        Err(Failure::Custom(HypeError::InvalidDataLength))
    } else {
        match burned_token(program_id, accounts) {
            Err(e) => Err(e),
            Ok(token) => if stored_supply(accounts[HYPE_MINT as int].data@) != Some(token.supply) {
                Err(Failure::Custom(HypeError::InvalidTokenSupply))
            } else {
                let amount = u64_at(data, 8);
                match burn_quote(curve_of(ctx.root), token.supply, amount, u64_at(data, 16)) {
                    Err(e) => Err(Failure::Custom(e)),
                    Ok(quote) => match fee_split(
                        quote.fee,
                        Binary64 { bits: ctx.root.fee_ratio },
                        referral_terms(ctx.client, ctx.time, accounts[REFERRER as int].key),
                    ) {
                        Err(e) => Err(Failure::Custom(e)),
                        Ok(fees) => if quote.amount < quote.fee {
                            Err(Failure::Custom(HypeError::ArithmeticOverflow))
                        } else if ctx.root.supply < amount {
                            Err(Failure::Custom(HypeError::InvalidTotalSupply))
                        } else if ctx.root.tvl < quote.amount {
                            Err(Failure::Custom(HypeError::InvalidTVL))
                        } else if !totals_fit(
                            ctx.root,
                            ctx.client,
                            token,
                            amount,
                            quote.amount,
                            fees,
                        ) {
                            Err(Failure::Custom(HypeError::ArithmeticOverflow))
                        } else {
                            let root = RootAccount {
                                supply: (ctx.root.supply - amount) as u64,
                                tvl: (ctx.root.tvl - quote.amount) as u64,
                                ..root_totals(
                                    ctx.root,
                                    amount,
                                    quote.amount,
                                    fees,
                                    ctx.slot,
                                    ctx.time,
                                )
                            };
                            let client = client_totals(
                                ctx.client,
                                amount,
                                quote.amount,
                                fees,
                                ctx.slot,
                                ctx.time,
                            );
                            let burned = TokenAccount {
                                supply: (token.supply - amount) as u64,
                                ..token_totals(token, amount, quote.amount, ctx.slot, ctx.time)
                            };
                            Ok(
                                (
                                    Trade {
                                        root,
                                        client,
                                        token: burned,
                                        client_created: ctx.client_created,
                                        token_created: false,
                                        amount,
                                        base_amount: quote.amount,
                                        total_fee: quote.fee,
                                        fees,
                                    },
                                    EffectsModel {
                                        actions: burn_actions(
                                            accounts,
                                            ctx,
                                            amount,
                                            (quote.amount - quote.fee) as u64,
                                            fees.referral,
                                        ).push(
                                            Action::Log(
                                                Event::Burn(
                                                    trade_record(
                                                        root,
                                                        client,
                                                        burned,
                                                        accounts[SIGNER as int].key,
                                                        amount,
                                                        quote.amount,
                                                        ctx.slot,
                                                        ctx.time,
                                                    ),
                                                ),
                                            ),
                                        ),
                                    },
                                ),
                            )
                        },
                    },
                }
            },
        }
    }
}

/// A burn moves the totals by exactly what was traded: supplies fall by the amount and the
/// reserve held by the return, neither below zero; the fee pools and the referrer's account
/// grow by their shares; the wallet is paid the return less the whole fee. The referral
/// binding of the client, the curve and the fee schedule of the root ledger and the status of
/// the token are what they were.
pub proof fn burn_tracks_the_trade(
    program_id: Address,
    accounts: Seq<AccountView>,
    data: Seq<u8>,
    ctx: Context,
)
    requires
        burn_settlement(program_id, accounts, data, ctx) is Ok,
    ensures
        ({
            let t = burn_settlement(program_id, accounts, data, ctx)->Ok_0.0;
            let token = burned_token(program_id, accounts)->Ok_0;
            &&& t.amount > 0
            &&& t.token.supply + t.amount == token.supply
            &&& t.root.supply + t.amount == ctx.root.supply
            &&& t.root.tvl + t.base_amount == ctx.root.tvl
            &&& t.root.fees == ctx.root.fees + t.fees.operator
            &&& t.root.holder_fees == ctx.root.holder_fees + t.fees.holder
            &&& t.root.counter == ctx.root.counter + 1
            &&& t.client.ref_paid == ctx.client.ref_paid + t.fees.referral
            &&& t.total_fee <= t.base_amount
            &&& t.client.ref_address == ctx.client.ref_address
            &&& t.client.ref_stop == ctx.client.ref_stop
            &&& t.client.ref_discount == ctx.client.ref_discount
            &&& t.client.ref_ratio == ctx.client.ref_ratio
            &&& curve_of(t.root) == curve_of(ctx.root)
            &&& t.root.fee_ratio == ctx.root.fee_ratio
            &&& t.root.admin == ctx.root.admin
            &&& t.root.networks_count == ctx.root.networks_count
            &&& t.token.status == token.status
            &&& t.token.mint == token.mint
        }),
{
}

/// What a burn gives: the entries after the trade, the intents and the audit events, those of
/// a client account created on the way included; or the failure.
pub open spec fn burn_model(
    program_id: Address,
    accounts: Seq<AccountView>,
    data: Seq<u8>,
    clock: Clock,
    addresses: TradeAddresses,
) -> Result<(Trade, EffectsModel), Failure> {
    match assembled(program_id, accounts, data, BURN_NICKNAME_OFFSET, clock, addresses) {
        Err(e) => Err(e),
        Ok((ctx, opening)) => match burn_settlement(program_id, accounts, data, ctx) {
            Err(e) => Err(e),
            Ok((trade, closing)) => Ok(
                (
                    trade,
                    EffectsModel {
                        actions: opening.actions + closing.actions,
                    },
                ),
            ),
        },
    }
}

fn load_burned_token(program_id: &Address, accounts: &[AccountView]) -> (r: Result<
    TokenAccount,
    Failure,
>)
    requires
        accounts.len() >= TRADE_ACCOUNTS,
    ensures
        r == burned_token(*program_id, accounts@),
{
    match TokenAccount::unpack(accounts[TOKEN].data.as_slice()) {
        Some(token) => if !token.mint.equals(&accounts[HYPE_MINT].key)
            || !accounts[TOKEN].owner.equals(program_id) {
            Err(Failure::Custom(HypeError::InvalidTokenAccount))
        } else {
            Ok(token)
        },
        None => Err(Failure::Custom(HypeError::InvalidTokenAccount)),
    }
}

/// Settles a burn whose context is assembled.
pub fn settle_burn(program_id: &Address, accounts: &[AccountView], data: &[u8], ctx: &Context) -> (r:
    Result<(Trade, Effects), Failure>)
    requires
        accounts.len() >= TRADE_ACCOUNTS,
    ensures
        agrees(r, burn_settlement(*program_id, accounts@, data@, *ctx)),
{
    if data.len() < 24 {
        return Err(Failure::Custom(HypeError::InvalidDataLength));
    }
    let token = load_burned_token(program_id, accounts)?;
    match read_supply(accounts[HYPE_MINT].data.as_slice()) {
        Some(supply) => if supply != token.supply {
            return Err(Failure::Custom(HypeError::InvalidTokenSupply));
        },
        None => {
            return Err(Failure::Custom(HypeError::InvalidTokenSupply));
        },
    }
    let amount = read_u64(data, 8);
    let min_cashout = read_u64(data, 16);
    let curve = get_curve(&ctx.root);
    let quote = match quote_burn(&curve, token.supply, amount, min_cashout) {
        Ok(quote) => quote,
        Err(e) => {
            return Err(Failure::Custom(e));
        },
    };
    let terms = get_referral_terms(&ctx.client, ctx.time, &accounts[REFERRER].key);
    let fees = match split_fees(quote.fee, Binary64::from_bits(ctx.root.fee_ratio), terms) {
        Ok(fees) => fees,
        Err(e) => {
            return Err(Failure::Custom(e));
        },
    };
    if quote.amount < quote.fee {
        return Err(Failure::Custom(HypeError::ArithmeticOverflow));
    }
    if ctx.root.supply < amount {
        return Err(Failure::Custom(HypeError::InvalidTotalSupply));
    }
    if ctx.root.tvl < quote.amount {
        return Err(Failure::Custom(HypeError::InvalidTVL));
    }
    let (mut root, client, mut burned) = match add_totals(
        &ctx.root,
        &ctx.client,
        &token,
        amount,
        quote.amount,
        &fees,
        ctx.slot,
        ctx.time,
    ) {
        Some(totals) => totals,
        None => {
            return Err(Failure::Custom(HypeError::ArithmeticOverflow));
        },
    };
    root.supply = ctx.root.supply - amount;
    root.tvl = ctx.root.tvl - quote.amount;
    burned.supply = token.supply - amount;
    let mut actions: Vec<Action> = Vec::new();
    if accounts[CLIENT_TOKENS].owner.is_system_program() {
        actions.push(
            Action::CreateAssociatedAccount {
                funder: accounts[SIGNER].key,
                wallet: accounts[SIGNER].key,
                mint: accounts[BASE_MINT].key,
                token_program: accounts[TOKEN_PROGRAM].key,
            },
        );
    }
    put_referrer_account(&mut actions, accounts, fees.referral);
    put_payments(
        &mut actions,
        accounts,
        &ctx.root,
        &accounts[RESERVE].key,
        &accounts[CLIENT_TOKENS].key,
        &ctx.hype_auth,
        Signer::Program { bump: ctx.hype_bump_seed },
        quote.amount - quote.fee,
        fees.referral,
    );
    actions.push(
        Action::Transfer {
            token_program: Address { bytes: TOKEN_2022_PROGRAM_ID },
            source: accounts[CLIENT_HYPE].key,
            mint: accounts[HYPE_MINT].key,
            destination: accounts[CUSTODY].key,
            authority: accounts[SIGNER].key,
            amount,
            decimals: (ctx.root.decimals % 256) as u8,
            checked: true,
            signer: Signer::Wallet,
        },
    );
    actions.push(
        Action::Burn {
            account: accounts[CUSTODY].key,
            mint: accounts[HYPE_MINT].key,
            authority: accounts[AUTHORITY].key,
            amount,
            signer: Signer::Program { bump: ctx.hype_bump_seed },
        },
    );
    actions.push(
        Action::Log(
            Event::Burn(
                make_trade_record(
                    &root,
                    &client,
                    &burned,
                    &accounts[SIGNER].key,
                    amount,
                    quote.amount,
                    ctx.slot,
                    ctx.time,
                ),
            ),
        ),
    );
    proof {
        let model = burn_settlement(*program_id, accounts@, data@, *ctx);
        assert(model is Ok);
        assert(actions@ =~= model->Ok_0.1.actions);
    }
    Ok(
        (
            Trade {
                root,
                client,
                token: burned,
                client_created: ctx.client_created,
                token_created: false,
                amount,
                base_amount: quote.amount,
                total_fee: quote.fee,
                fees,
            },
            Effects { actions },
        ),
    )
}

/// Burns tokens, given the derived addresses of the trade.
pub fn burn_with(
    program_id: &Address,
    accounts: &[AccountView],
    data: &[u8],
    clock: &Clock,
    addresses: &TradeAddresses,
) -> (r: Result<(Trade, Effects), Failure>)
    ensures
        agrees(r, burn_model(*program_id, accounts@, data@, *clock, *addresses)),
{
    let (ctx, opening) = Context::assemble(
        program_id,
        accounts,
        data,
        BURN_NICKNAME_OFFSET,
        clock,
        addresses,
    )?;
    let (trade, closing) = settle_burn(program_id, accounts, data, &ctx)?;
    let mut actions = opening.actions;
    let mut later_actions = closing.actions;
    actions.append(&mut later_actions);
    Ok((trade, Effects { actions }))
}

/// Burns tokens of the trading wallet: the curve pays their return less the fee, the tokens
/// are retired, and the totals of root ledger, client and token record follow.
pub fn burn(program_id: &Address, accounts: &[AccountView], data: &[u8], clock: &Clock) -> (r:
    Result<(Trade, Effects), Failure>)
    ensures
        agrees(
            r,
            burn_model(
                *program_id,
                accounts@,
                data@,
                *clock,
                trade_addresses(*program_id, accounts@),
            ),
        ),
{
    let addresses = derive_trade_addresses(program_id, accounts);
    burn_with(program_id, accounts, data, clock, &addresses)
}

} // verus!
