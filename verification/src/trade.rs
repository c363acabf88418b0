//! What mint and burn share: the curve of a root ledger, the payments of a trade and the
//! running totals that record it.

use crate::account::AccountView;
use crate::action::{Action, Signer};
use crate::address::Address;
use crate::bytes::{read_u64, u64_at};
use crate::constants::{SYSTEM_PROGRAM_ID, TOKEN_2022_PROGRAM_ID, TOKEN_PROGRAM_ID};
use crate::context::{BASE_MINT, REFERRER, REFERRER_TOKENS, RESERVE, SIGNER, TOKEN_PROGRAM};
use crate::curve::Curve;
use crate::fees::FeeSplit;
use crate::binary64::Binary64;
use crate::log::TradeRecord;
use crate::state::client::ClientAccount;
use crate::state::root::RootAccount;
use crate::state::token::TokenAccount;
use vstd::prelude::*;

verus! {

/// Offset of the supply in the account of a mint of the token service.
pub const MINT_SUPPLY_OFFSET: usize = 36;

/// The outcome of a trade: the three entries as they are stored after it, and what was traded.
#[derive(Clone, Copy, Debug, PartialEq, Eq)]
pub struct Trade {
    /// The root ledger after the trade.
    pub root: RootAccount,
    /// The client account after the trade.
    pub client: ClientAccount,
    /// The token record after the trade.
    pub token: TokenAccount,
    /// Whether the client account was created with this trade.
    pub client_created: bool,
    /// Whether the token was listed with this trade.
    pub token_created: bool,
    /// Tokens minted or burned.
    pub amount: u64,
    /// Base currency that the curve took in or paid out, before fees.
    pub base_amount: u64,
    /// The whole fee of the trade.
    pub total_fee: u64,
    /// How the fee is split.
    pub fees: FeeSplit,
}

/// The parameters of a root ledger that price a trade.
pub open spec fn curve_of(root: RootAccount) -> Curve {
    Curve {
        init_price: Binary64 { bits: root.init_price },
        max_supply: root.max_supply,
        fee_rate: Binary64 { bits: root.fee_rate },
        min_fee: Binary64 { bits: root.min_fee },
        decimals_factor: root.base_crncy_decs_factor,
    }
}

/// The decimal places that a checked transfer names: those of the root ledger, in one byte.
pub open spec fn transfer_decimals(root: RootAccount) -> u8 {
    (root.decimals % 256) as u8
}

/// The supply of the mint stored in `data`, where `data` holds one.
pub open spec fn stored_supply(data: Seq<u8>) -> Option<u64> {
    if data.len() >= MINT_SUPPLY_OFFSET + 8 {
        Some(u64_at(data, MINT_SUPPLY_OFFSET as int))
    } else {
        None
    }
}

/// A transfer of base currency between two token accounts of a trade. Where the reserve
/// belongs to the token program with extensions the transfer is a checked one.
pub open spec fn payment(
    accounts: Seq<AccountView>,
    root: RootAccount,
    source: Address,
    destination: Address,
    authority: Address,
    signer: Signer,
    amount: u64,
) -> Action {
    if accounts[RESERVE as int].owner.bytes == TOKEN_2022_PROGRAM_ID {
        Action::Transfer {
            token_program: Address { bytes: TOKEN_2022_PROGRAM_ID },
            source,
            mint: accounts[BASE_MINT as int].key,
            destination,
            authority,
            amount,
            decimals: transfer_decimals(root),
            checked: true,
            signer,
        }
    } else {
        Action::Transfer {
            token_program: Address { bytes: TOKEN_PROGRAM_ID },
            source,
            mint: accounts[BASE_MINT as int].key,
            destination,
            authority,
            amount,
            decimals: 0,
            checked: false,
            signer,
        }
    }
}

/// The creation of the referrer's token account, where a referral fee is due and the account
/// does not exist yet.
pub open spec fn referrer_account_actions(accounts: Seq<AccountView>, referral_fee: u64) -> Seq<
    Action,
> {
    if referral_fee > 0 && accounts[REFERRER_TOKENS as int].owner.bytes == SYSTEM_PROGRAM_ID {
        seq![
            Action::CreateAssociatedAccount {
                funder: accounts[SIGNER as int].key,
                wallet: accounts[REFERRER as int].key,
                mint: accounts[BASE_MINT as int].key,
                token_program: accounts[TOKEN_PROGRAM as int].key,
            },
        ]
    } else {
        Seq::empty()
    }
}

/// The payments of a trade: `amount` from `source` to `destination`, and the referral fee,
/// where one is due, from `source` to the referrer's token account.
pub open spec fn payments(
    accounts: Seq<AccountView>,
    root: RootAccount,
    source: Address,
    destination: Address,
    authority: Address,
    signer: Signer,
    amount: u64,
    referral_fee: u64,
) -> Seq<Action> {
    let main = seq![payment(accounts, root, source, destination, authority, signer, amount)];
    if referral_fee > 0 {
        main.push(
            payment(
                accounts,
                root,
                source,
                accounts[REFERRER_TOKENS as int].key,
                authority,
                signer,
                referral_fee,
            ),
        )
    } else {
        main
    }
}

/// Whether the totals that a trade adds to still fit their fields.
pub open spec fn totals_fit(
    root: RootAccount,
    client: ClientAccount,
    token: TokenAccount,
    amount: u64,
    base: u64,
    fees: FeeSplit,
) -> bool {
    &&& root.all_time_base_crncy_volume + base <= u128::MAX
    &&& root.all_time_tokens_volume + amount <= u128::MAX
    &&& root.counter + 1 <= u64::MAX
    &&& root.fees + fees.operator <= u64::MAX
    &&& root.holder_fees + fees.holder <= u64::MAX
    &&& client.ref_paid + fees.referral <= u64::MAX
    &&& client.all_time_trades_count + 1 <= u32::MAX
    &&& client.all_time_base_crncy_volume + base <= u64::MAX
    &&& client.all_time_tokens_volume + amount <= u64::MAX
    &&& token.all_time_trades_count + 1 <= u64::MAX
    &&& token.all_time_base_crncy_volume + base <= u128::MAX
    &&& token.all_time_tokens_volume + amount <= u128::MAX
}

/// The root ledger after a trade, but for its supply and its reserve: volumes, event counter
/// and fee pools grow by what the trade moved.
pub open spec fn root_totals(root: RootAccount, amount: u64, base: u64, fees: FeeSplit, slot: u64, time: u32) -> RootAccount {
    RootAccount {
        all_time_base_crncy_volume: (root.all_time_base_crncy_volume + base) as u128,
        all_time_tokens_volume: (root.all_time_tokens_volume + amount) as u128,
        counter: (root.counter + 1) as u64,
        fees: (root.fees + fees.operator) as u64,
        holder_fees: (root.holder_fees + fees.holder) as u64,
        slot,
        time,
        ..root
    }
}

/// The client account after a trade.
pub open spec fn client_totals(client: ClientAccount, amount: u64, base: u64, fees: FeeSplit, slot: u64, time: u32) -> ClientAccount {
    ClientAccount {
        ref_paid: (client.ref_paid + fees.referral) as u64,
        all_time_trades_count: (client.all_time_trades_count + 1) as u32,
        all_time_base_crncy_volume: (client.all_time_base_crncy_volume + base) as u64,
        all_time_tokens_volume: (client.all_time_tokens_volume + amount) as u64,
        slot,
        time,
        ..client
    }
}

/// The token record after a trade, but for its supply.
pub open spec fn token_totals(token: TokenAccount, amount: u64, base: u64, slot: u64, time: u32) -> TokenAccount {
    TokenAccount {
        all_time_trades_count: (token.all_time_trades_count + 1) as u64,
        all_time_base_crncy_volume: (token.all_time_base_crncy_volume + base) as u128,
        all_time_tokens_volume: (token.all_time_tokens_volume + amount) as u128,
        slot,
        time,
        ..token
    }
}

/// The audit record of a trade, taken from the entries as they are after it. The volumes are
/// logged in 64 bits.
pub open spec fn trade_record(
    root: RootAccount,
    client: ClientAccount,
    token: TokenAccount,
    wallet: Address,
    amount: u64,
    base: u64,
    slot: u64,
    time: u32,
) -> TradeRecord {
    TradeRecord {
        client_id: client.id,
        order_id: root.counter,
        token_id: token.id,
        network_id: token.network,
        mint: token.mint,
        creator: token.creator,
        wallet,
        address: token.address,
        creation_time: token.creation_time,
        supply: token.supply,
        all_time_trades_count: token.all_time_trades_count,
        all_time_base_crncy_volume: (token.all_time_base_crncy_volume
            % 0x1_0000_0000_0000_0000) as u64,
        all_time_tokens_volume: (token.all_time_tokens_volume % 0x1_0000_0000_0000_0000) as u64,
        tokens_amount: amount,
        base_crncy_amount: base,
        time,
        slot,
    }
}

/// Reads the parameters of a root ledger that price a trade.
pub fn get_curve(root: &RootAccount) -> (r: Curve)
    ensures
        r == curve_of(*root),
{
    Curve {
        init_price: Binary64::from_bits(root.init_price),
        max_supply: root.max_supply,
        fee_rate: Binary64::from_bits(root.fee_rate),
        min_fee: Binary64::from_bits(root.min_fee),
        decimals_factor: root.base_crncy_decs_factor,
    }
}

/// Reads the supply of a mint of the token service.
pub fn read_supply(data: &[u8]) -> (r: Option<u64>)
    ensures
        r == stored_supply(data@),
{
    if data.len() >= MINT_SUPPLY_OFFSET + 8 {
        Some(read_u64(data, MINT_SUPPLY_OFFSET))
    } else {
        None
    }
}

/// Builds a transfer of base currency between two token accounts of a trade.
pub fn pay(
    accounts: &[AccountView],
    root: &RootAccount,
    source: &Address,
    destination: &Address,
    authority: &Address,
    signer: Signer,
    amount: u64,
) -> (r: Action)
    requires
        accounts.len() > RESERVE,
    ensures
        r == payment(accounts@, *root, *source, *destination, *authority, signer, amount),
{
    if accounts[RESERVE].owner.equals(&Address { bytes: TOKEN_2022_PROGRAM_ID }) {
        Action::Transfer {
            token_program: Address { bytes: TOKEN_2022_PROGRAM_ID },
            source: *source,
            mint: accounts[BASE_MINT].key,
            destination: *destination,
            authority: *authority,
            amount,
            decimals: (root.decimals % 256) as u8,
            checked: true,
            signer,
        }
    } else {
        Action::Transfer {
            token_program: Address { bytes: TOKEN_PROGRAM_ID },
            source: *source,
            mint: accounts[BASE_MINT].key,
            destination: *destination,
            authority: *authority,
            amount,
            decimals: 0,
            checked: false,
            signer,
        }
    }
}

/// Appends to `actions` the creation of the referrer's token account, where it is due.
pub fn put_referrer_account(actions: &mut Vec<Action>, accounts: &[AccountView], referral_fee: u64)
    requires
        accounts.len() > REFERRER_TOKENS,
    ensures
        final(actions)@ == old(actions)@ + referrer_account_actions(accounts@, referral_fee),
{
    if referral_fee > 0 && accounts[REFERRER_TOKENS].owner.is_system_program() {
        actions.push(
            Action::CreateAssociatedAccount {
                funder: accounts[SIGNER].key,
                wallet: accounts[REFERRER].key,
                mint: accounts[BASE_MINT].key,
                token_program: accounts[TOKEN_PROGRAM].key,
            },
        );
    }
    assert(actions@ =~= old(actions)@ + referrer_account_actions(accounts@, referral_fee));
}

/// Appends to `actions` the payments of a trade.
pub fn put_payments(
    actions: &mut Vec<Action>,
    accounts: &[AccountView],
    root: &RootAccount,
    source: &Address,
    destination: &Address,
    authority: &Address,
    signer: Signer,
    amount: u64,
    referral_fee: u64,
)
    requires
        accounts.len() > REFERRER_TOKENS,
    ensures
        final(actions)@ == old(actions)@ + payments(
            accounts@,
            *root,
            *source,
            *destination,
            *authority,
            signer,
            amount,
            referral_fee,
        ),
{
    actions.push(pay(accounts, root, source, destination, authority, signer, amount));
    if referral_fee > 0 {
        actions.push(
            pay(
                accounts,
                root,
                source,
                &accounts[REFERRER_TOKENS].key,
                authority,
                signer,
                referral_fee,
            ),
        );
    }
    assert(actions@ =~= old(actions)@ + payments(
        accounts@,
        *root,
        *source,
        *destination,
        *authority,
        signer,
        amount,
        referral_fee,
    ));
}

/// Adds what a trade moved to the running totals of the three entries, or returns `None`
/// where a total does not fit its field.
pub fn add_totals(
    root: &RootAccount,
    client: &ClientAccount,
    token: &TokenAccount,
    amount: u64,
    base: u64,
    fees: &FeeSplit,
    slot: u64,
    time: u32,
) -> (r: Option<(RootAccount, ClientAccount, TokenAccount)>)
    ensures
        r == if totals_fit(*root, *client, *token, amount, base, *fees) {
            Some(
                (
                    root_totals(*root, amount, base, *fees, slot, time),
                    client_totals(*client, amount, base, *fees, slot, time),
                    token_totals(*token, amount, base, slot, time),
                ),
            )
        } else {
            None
        },
{
    let mut r = *root;
    r.all_time_base_crncy_volume = root.all_time_base_crncy_volume.checked_add(base as u128)?;
    r.all_time_tokens_volume = root.all_time_tokens_volume.checked_add(amount as u128)?;
    r.counter = root.counter.checked_add(1)?;
    r.fees = root.fees.checked_add(fees.operator)?;
    r.holder_fees = root.holder_fees.checked_add(fees.holder)?;
    r.slot = slot;
    r.time = time;
    let mut c = *client;
    c.ref_paid = client.ref_paid.checked_add(fees.referral)?;
    c.all_time_trades_count = client.all_time_trades_count.checked_add(1)?;
    c.all_time_base_crncy_volume = client.all_time_base_crncy_volume.checked_add(base)?;
    c.all_time_tokens_volume = client.all_time_tokens_volume.checked_add(amount)?;
    c.slot = slot;
    c.time = time;
    let mut t = *token;
    t.all_time_trades_count = token.all_time_trades_count.checked_add(1)?;
    t.all_time_base_crncy_volume = token.all_time_base_crncy_volume.checked_add(base as u128)?;
    t.all_time_tokens_volume = token.all_time_tokens_volume.checked_add(amount as u128)?;
    t.slot = slot;
    t.time = time;
    Some((r, c, t))
}

/// Builds the audit record of a trade from the entries as they are after it.
pub fn make_trade_record(
    root: &RootAccount,
    client: &ClientAccount,
    token: &TokenAccount,
    wallet: &Address,
    amount: u64,
    base: u64,
    slot: u64,
    time: u32,
) -> (r: TradeRecord)
    ensures
        r == trade_record(*root, *client, *token, *wallet, amount, base, slot, time),
{
    TradeRecord {
        client_id: client.id,
        order_id: root.counter,
        token_id: token.id,
        network_id: token.network,
        mint: token.mint,
        creator: token.creator,
        wallet: *wallet,
        address: token.address,
        creation_time: token.creation_time,
        supply: token.supply,
        all_time_trades_count: token.all_time_trades_count,
        all_time_base_crncy_volume: (token.all_time_base_crncy_volume
            % 0x1_0000_0000_0000_0000) as u64,
        all_time_tokens_volume: (token.all_time_tokens_volume % 0x1_0000_0000_0000_0000) as u64,
        tokens_amount: amount,
        base_crncy_amount: base,
        time,
        slot,
    }
}

} // verus!
