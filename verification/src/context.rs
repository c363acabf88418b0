//! Context assembly: what a trade needs before it is priced.
//!
//! A trade names seventeen accounts. Assembly checks each against what the root ledger and
//! the derivations say it must be, reads the root ledger, and reads the client account of the
//! trading wallet or creates it. The referral binding of a client is fixed here, at creation,
//! and nowhere else.

use crate::account::{AccountView, Clock};
use crate::action::{agrees, Action, Effects, EffectsModel, Signer};
use crate::address::{
    associated_token_address, derive_entry, derive_hype_authority, derived, entry_seeds,
    existing_account_check, get_associated_token_address, get_seed_by_tag, hype_authority,
    matches_address, seed_by_tag, verify_existing, Address,
};
use crate::bytes::{bytes_32, read_32};
use crate::constants::{
    ASSOCIATED_TOKEN_PROGRAM_ID, CLIENT_ACCOUNT_SIZE, CLIENT_TAG, ROOT_ACCOUNT_SIZE,
    SYSTEM_PROGRAM_ID, TOKEN_2022_PROGRAM_ID, TOKEN_PROGRAM_ID,
};
use crate::error::{Failure, HypeError};
use crate::ledger::{load_root, owned_root};
use crate::log::Event;
use crate::processor::change_client_data::{load_client, owned_client};
use crate::rent::{rent_exempt_minimum, rent_minimum};
use crate::state::client::ClientAccount;
use crate::state::root::RootAccount;
use vstd::prelude::*;

verus! {

/// Position of the trading wallet among the accounts of a trade.
pub const SIGNER: usize = 0;

/// Position of the wallet's client account.
pub const CLIENT: usize = 1;

/// Position of the wallet's token account for the base currency.
pub const CLIENT_TOKENS: usize = 2;

/// Position of the wallet's token account for the traded token.
pub const CLIENT_HYPE: usize = 3;

/// Position of the root ledger.
pub const ROOT: usize = 4;

/// Position of the token record.
pub const TOKEN: usize = 5;

/// Position of the mint of the base currency.
pub const BASE_MINT: usize = 6;

/// Position of the reserve of base currency.
pub const RESERVE: usize = 7;

/// Position of the mint of the traded token.
pub const HYPE_MINT: usize = 8;

/// Position of the custody account for burned tokens.
pub const CUSTODY: usize = 9;

/// Position of the program's authority.
pub const AUTHORITY: usize = 10;

/// Position of the token program.
pub const TOKEN_PROGRAM: usize = 11;

/// Position of the token program with extensions.
pub const TOKEN_2022_PROGRAM: usize = 12;

/// Position of the system program.
pub const SYSTEM_PROGRAM: usize = 13;

/// Position of the associated-token program.
pub const ASSOCIATED_PROGRAM: usize = 14;

/// Position of the referrer's wallet; the system program where there is no referrer.
pub const REFERRER: usize = 15;

/// Position of the referrer's token account for the base currency.
pub const REFERRER_TOKENS: usize = 16;

/// Number of accounts of a trade.
pub const TRADE_ACCOUNTS: usize = 17;

/// The derived addresses against which the accounts of a trade are checked.
#[derive(Clone, Copy, Debug, PartialEq, Eq)]
pub struct TradeAddresses {
    /// Token account of the referrer for the base currency.
    pub referrer_tokens: Option<Address>,
    /// Token account of the wallet for the base currency.
    pub client_tokens: Option<Address>,
    /// Token account of the wallet for the traded token.
    pub client_hype: Option<Address>,
    /// The wallet's client account and its bump seed.
    pub client_entry: Option<(Address, u8)>,
    /// The program's authority and its bump seed.
    pub authority: Option<(Address, u8)>,
}

/// What assembly hands to the trade.
#[derive(Clone, Copy, Debug, PartialEq, Eq)]
pub struct Context {
    /// The root ledger; a client created here is already counted.
    pub root: RootAccount,
    /// The client account of the trading wallet.
    pub client: ClientAccount,
    /// Whether the client account was created here.
    pub client_created: bool,
    /// The program's authority.
    pub hype_auth: Address,
    /// Bump seed of the program's authority.
    pub hype_bump_seed: u8,
    /// Ledger slot of the trade.
    pub slot: u64,
    /// Time of the trade.
    pub time: u32,
}

/// The derived addresses of a trade with the given accounts.
pub open spec fn trade_addresses(program_id: Address, accounts: Seq<AccountView>) -> TradeAddresses {
    if accounts.len() < TRADE_ACCOUNTS {
        TradeAddresses {
            referrer_tokens: None,
            client_tokens: None,
            client_hype: None,
            client_entry: None,
            authority: None,
        }
    } else {
        TradeAddresses {
            referrer_tokens: associated_token_address(
                accounts[REFERRER as int].key,
                accounts[BASE_MINT as int].key,
                accounts[TOKEN_PROGRAM as int].key,
            ),
            client_tokens: associated_token_address(
                accounts[SIGNER as int].key,
                accounts[BASE_MINT as int].key,
                accounts[TOKEN_PROGRAM as int].key,
            ),
            client_hype: associated_token_address(
                accounts[SIGNER as int].key,
                accounts[HYPE_MINT as int].key,
                accounts[TOKEN_2022_PROGRAM as int].key,
            ),
            client_entry: if accounts[ROOT as int].data@.len() >= ROOT_ACCOUNT_SIZE {
                derived(
                    entry_seeds(
                        seed_by_tag(
                            RootAccount::unpacked(accounts[ROOT as int].data@).version,
                            CLIENT_TAG,
                        ),
                        accounts[SIGNER as int].key,
                    ),
                    program_id,
                )
            } else {
                None
            },
            authority: hype_authority(program_id),
        }
    }
}

/// The time at which the referral window of a client created at `time` closes: after the root
/// ledger's referral duration where a funded referrer is named, at once otherwise.
pub open spec fn referral_stop(referrer: AccountView, time: u32, duration: u32) -> int {
    if referrer.key.bytes != SYSTEM_PROGRAM_ID && referrer.lamports > 0 {
        time + duration
    } else {
        time as int
    }
}

/// The client account that assembly creates for the trading wallet.
pub open spec fn new_client(
    root: RootAccount,
    accounts: Seq<AccountView>,
    nickname: Seq<u8>,
    clock: Clock,
) -> ClientAccount {
    ClientAccount {
        tag: CLIENT_TAG,
        version: root.version,
        id: root.clients_count,
        wallet: accounts[SIGNER as int].key,
        all_time_base_crncy_volume: 0,
        all_time_tokens_volume: 0,
        slot: clock.slot,
        time: clock.time,
        tokens_created: 0,
        ref_stop: referral_stop(accounts[REFERRER as int], clock.time, root.ref_duration) as u32,
        all_time_trades_count: 0,
        nickname: bytes_32(nickname),
        ref_address: accounts[REFERRER as int].key,
        ref_paid: 0,
        ref_discount: root.ref_discount,
        ref_ratio: root.ref_ratio,
    }
}

/// The last step of assembly: the client account is read, or created where the account still
/// belongs to the system program, and the program's authority is checked.
pub open spec fn client_step(
    program_id: Address,
    accounts: Seq<AccountView>,
    data: Seq<u8>,
    nickname_offset: usize,
    clock: Clock,
    addresses: TradeAddresses,
    root: RootAccount,
) -> Result<(Context, EffectsModel), Failure> {
    let authority_ok = addresses.authority is Some && addresses.authority->Some_0.0
        == accounts[AUTHORITY as int].key;
    if accounts[CLIENT as int].owner.bytes == SYSTEM_PROGRAM_ID {
        match existing_account_check(accounts[CLIENT as int].key, addresses.client_entry) {
            Err(e) => Err(e),
            Ok(bump) => if data.len() < nickname_offset + 32 {
                Err(Failure::Custom(HypeError::InvalidDataLength))
            } else if referral_stop(accounts[REFERRER as int], clock.time, root.ref_duration)
                > u32::MAX || root.clients_count == u64::MAX || root.counter == u64::MAX {
                Err(Failure::Custom(HypeError::ArithmeticOverflow))
            } else if !authority_ok {
                Err(Failure::Custom(HypeError::InvalidHypeAuthority))
            } else {
                Ok(
                    (
                        Context {
                            root: RootAccount {
                                clients_count: (root.clients_count + 1) as u64,
                                counter: (root.counter + 1) as u64,
                                ..root
                            },
                            client: new_client(
                                root,
                                accounts,
                                data.subrange(nickname_offset as int, nickname_offset + 32),
                                clock,
                            ),
                            client_created: true,
                            hype_auth: addresses.authority->Some_0.0,
                            hype_bump_seed: addresses.authority->Some_0.1,
                            slot: clock.slot,
                            time: clock.time,
                        },
                        EffectsModel {
                            actions: seq![
                                Action::CreateAccount {
                                    payer: accounts[SIGNER as int].key,
                                    account: accounts[CLIENT as int].key,
                                    lamports: rent_minimum(CLIENT_ACCOUNT_SIZE as nat) as u64,
                                    space: CLIENT_ACCOUNT_SIZE as u64,
                                    owner: program_id,
                                    signer: Signer::Tagged {
                                        version: root.version,
                                        tag: CLIENT_TAG,
                                        base: accounts[SIGNER as int].key,
                                        bump,
                                    },
                                },
                                Action::Log(
                                    Event::NewClient {
                                        client_id: root.clients_count,
                                        order_id: root.counter,
                                        wallet: accounts[SIGNER as int].key,
                                        time: clock.time,
                                        slot: clock.slot,
                                    },
                                ),
                            ],
                        },
                    ),
                )
            },
        }
    } else {
        match owned_client(program_id, accounts[CLIENT as int], accounts[SIGNER as int].key) {
            Err(e) => Err(e),
            Ok(client) => if !authority_ok {
                Err(Failure::Custom(HypeError::InvalidHypeAuthority))
            } else {
                Ok(
                    (
                        Context {
                            root,
                            client,
                            client_created: false,
                            hype_auth: addresses.authority->Some_0.0,
                            hype_bump_seed: addresses.authority->Some_0.1,
                            slot: clock.slot,
                            time: clock.time,
                        },
                        EffectsModel { actions: Seq::empty() },
                    ),
                )
            },
        }
    }
}

/// What assembly gives: the context of the trade, with the creation of the client account
/// where there was none, or the failure.
///
/// The checks come in this order: the referrer's token account, unless the referrer is the
/// system program; the four program addresses; the root ledger, its base currency and its
/// reserve; the wallet's two token accounts; the client account; the program's authority.
pub open spec fn assembled(
    program_id: Address,
    accounts: Seq<AccountView>,
    data: Seq<u8>,
    nickname_offset: usize,
    clock: Clock,
    addresses: TradeAddresses,
) -> Result<(Context, EffectsModel), Failure> {
    if accounts.len() < TRADE_ACCOUNTS {
        Err(Failure::NotEnoughAccountKeys)
    } else if accounts[REFERRER as int].key.bytes != SYSTEM_PROGRAM_ID && addresses.referrer_tokens
        != Some(accounts[REFERRER_TOKENS as int].key) {
        Err(Failure::Custom(HypeError::InvalidRefAddress))
    } else if accounts[TOKEN_PROGRAM as int].key.bytes != TOKEN_PROGRAM_ID {
        Err(Failure::Custom(HypeError::InvalidTokenProgramId))
    } else if accounts[TOKEN_2022_PROGRAM as int].key.bytes != TOKEN_2022_PROGRAM_ID {
        Err(Failure::Custom(HypeError::InvalidToken2022ProgramId))
    } else if accounts[ASSOCIATED_PROGRAM as int].key.bytes != ASSOCIATED_TOKEN_PROGRAM_ID {
        Err(Failure::Custom(HypeError::InvalidAssociatedTokenId))
    } else if accounts[SYSTEM_PROGRAM as int].key.bytes != SYSTEM_PROGRAM_ID {
        Err(Failure::Custom(HypeError::InvalidSystemProgramId))
    } else {
        match owned_root(program_id, accounts[ROOT as int]) {
            Err(e) => Err(e),
            Ok(root) => if root.base_crncy_mint != accounts[BASE_MINT as int].key {
                Err(Failure::Custom(HypeError::InvalidBaseCrncyMint))
            } else if root.base_crncy_program_address != accounts[RESERVE as int].key {
                Err(Failure::Custom(HypeError::InvalidBaseCrncyProgramAddress))
            } else if addresses.client_tokens != Some(accounts[CLIENT_TOKENS as int].key)
                || addresses.client_hype != Some(accounts[CLIENT_HYPE as int].key) {
                Err(Failure::Custom(HypeError::InvalidAssociatedTokenAddress))
            } else {
                client_step(program_id, accounts, data, nickname_offset, clock, addresses, root)
            },
        }
    }
}

fn assemble_client(
    program_id: &Address,
    accounts: &[AccountView],
    data: &[u8],
    nickname_offset: usize,
    clock: &Clock,
    addresses: &TradeAddresses,
    root: RootAccount,
) -> (r: Result<(Context, Effects), Failure>)
    requires
        accounts.len() >= TRADE_ACCOUNTS,
    ensures
        agrees(
            r,
            client_step(*program_id, accounts@, data@, nickname_offset, *clock, *addresses, root),
        ),
{
    let signer = &accounts[SIGNER];
    let client_acc = &accounts[CLIENT];
    let referrer = &accounts[REFERRER];
    let authority_ok = match addresses.authority {
        Some((a, _)) => a.equals(&accounts[AUTHORITY].key),
        None => false,
    };
    if client_acc.owner.is_system_program() {
        let bump = verify_existing(&client_acc.key, addresses.client_entry)?;
        let len: usize = data.len();
        if len < 32 || nickname_offset > len - 32 {
            return Err(Failure::Custom(HypeError::InvalidDataLength));
        }
        let stop: u32 = if !referrer.key.is_system_program() && referrer.lamports > 0 {
            match clock.time.checked_add(root.ref_duration) {
                Some(v) => v,
                None => {
                    return Err(Failure::Custom(HypeError::ArithmeticOverflow));
                },
            }
        } else {
            clock.time
        };
        if root.clients_count == u64::MAX || root.counter == u64::MAX {
            return Err(Failure::Custom(HypeError::ArithmeticOverflow));
        }
        let (hype_auth, hype_bump_seed) = match addresses.authority {
            Some(found) => found,
            None => {
                return Err(Failure::Custom(HypeError::InvalidHypeAuthority));
            },
        };
        if !authority_ok {
            return Err(Failure::Custom(HypeError::InvalidHypeAuthority));
        }
        let lamports = match rent_exempt_minimum(CLIENT_ACCOUNT_SIZE) {
            Some(v) => v,
            None => {
                return Err(Failure::InvalidRealloc);
            },
        };
        let client = ClientAccount {
            tag: CLIENT_TAG,
            version: root.version,
            id: root.clients_count,
            wallet: signer.key,
            all_time_base_crncy_volume: 0,
            all_time_tokens_volume: 0,
            slot: clock.slot,
            time: clock.time,
            tokens_created: 0,
            ref_stop: stop,
            all_time_trades_count: 0,
            nickname: read_32(data, nickname_offset),
            ref_address: referrer.key,
            ref_paid: 0,
            ref_discount: root.ref_discount,
            ref_ratio: root.ref_ratio,
        };
        let mut counted = root;
        counted.clients_count = root.clients_count + 1;
        counted.counter = root.counter + 1;
        let mut actions: Vec<Action> = Vec::new();
        actions.push(
            Action::CreateAccount {
                payer: signer.key,
                account: client_acc.key,
                lamports,
                space: CLIENT_ACCOUNT_SIZE as u64,
                owner: *program_id,
                signer: Signer::Tagged {
                    version: root.version,
                    tag: CLIENT_TAG,
                    base: signer.key,
                    bump,
                },
            },
        );
        actions.push(
            Action::Log(
                Event::NewClient {
                    client_id: root.clients_count,
                    order_id: root.counter,
                    wallet: signer.key,
                    time: clock.time,
                    slot: clock.slot,
                },
            ),
        );
        proof {
            let model = client_step(
                *program_id,
                accounts@,
                data@,
                nickname_offset,
                *clock,
                *addresses,
                root,
            );
            assert(model is Ok);
            assert(actions@ =~= model->Ok_0.1.actions);
        }
        Ok(
            (
                Context {
                    root: counted,
                    client,
                    client_created: true,
                    hype_auth,
                    hype_bump_seed,
                    slot: clock.slot,
                    time: clock.time,
                },
                Effects { actions },
            ),
        )
    } else {
        let client = load_client(program_id, client_acc, &signer.key)?;
        let (hype_auth, hype_bump_seed) = match addresses.authority {
            Some(found) => found,
            None => {
                return Err(Failure::Custom(HypeError::InvalidHypeAuthority));
            },
        };
        if !authority_ok {
            return Err(Failure::Custom(HypeError::InvalidHypeAuthority));
        }
        let actions: Vec<Action> = Vec::new();
        proof {
            let model = client_step(
                *program_id,
                accounts@,
                data@,
                nickname_offset,
                *clock,
                *addresses,
                root,
            );
            assert(actions@ =~= model->Ok_0.1.actions);
        }
        Ok(
            (
                Context {
                    root,
                    client,
                    client_created: false,
                    hype_auth,
                    hype_bump_seed,
                    slot: clock.slot,
                    time: clock.time,
                },
                Effects { actions },
            ),
        )
    }
}

/// Derives the addresses against which the accounts of a trade are checked.
pub fn derive_trade_addresses(program_id: &Address, accounts: &[AccountView]) -> (r: TradeAddresses)
    ensures
        r == trade_addresses(*program_id, accounts@),
{
    if accounts.len() < TRADE_ACCOUNTS {
        return TradeAddresses {
            referrer_tokens: None,
            client_tokens: None,
            client_hype: None,
            client_entry: None,
            authority: None,
        };
    }
    let signer = &accounts[SIGNER].key;
    let base_mint = &accounts[BASE_MINT].key;
    let token_program = &accounts[TOKEN_PROGRAM].key;
    let client_entry = match RootAccount::unpack(accounts[ROOT].data.as_slice()) {
        Some(root) => {
            let seed = get_seed_by_tag(root.version, CLIENT_TAG);
            derive_entry(seed.as_slice(), signer, program_id)
        },
        None => None,
    };
    TradeAddresses {
        referrer_tokens: get_associated_token_address(
            &accounts[REFERRER].key,
            base_mint,
            token_program,
        ),
        client_tokens: get_associated_token_address(signer, base_mint, token_program),
        client_hype: get_associated_token_address(
            signer,
            &accounts[HYPE_MINT].key,
            &accounts[TOKEN_2022_PROGRAM].key,
        ),
        client_entry,
        authority: derive_hype_authority(program_id),
    }
}

impl Context {
    /// Assembles the context of a trade, given the derived addresses.
    pub fn assemble(
        program_id: &Address,
        accounts: &[AccountView],
        data: &[u8],
        nickname_offset: usize,
        clock: &Clock,
        addresses: &TradeAddresses,
    ) -> (r: Result<(Context, Effects), Failure>)
        ensures
            agrees(r, assembled(*program_id, accounts@, data@, nickname_offset, *clock, *addresses)),
    {
        if accounts.len() < TRADE_ACCOUNTS {
            return Err(Failure::NotEnoughAccountKeys);
        }
        if !accounts[REFERRER].key.is_system_program() && !matches_address(
            &addresses.referrer_tokens,
            &accounts[REFERRER_TOKENS].key,
        ) {
            return Err(Failure::Custom(HypeError::InvalidRefAddress));
        }
        if !accounts[TOKEN_PROGRAM].key.equals(&Address { bytes: TOKEN_PROGRAM_ID }) {
            return Err(Failure::Custom(HypeError::InvalidTokenProgramId));
        }
        if !accounts[TOKEN_2022_PROGRAM].key.equals(&Address { bytes: TOKEN_2022_PROGRAM_ID }) {
            return Err(Failure::Custom(HypeError::InvalidToken2022ProgramId));
        }
        if !accounts[ASSOCIATED_PROGRAM].key.equals(&Address { bytes: ASSOCIATED_TOKEN_PROGRAM_ID }) {
            return Err(Failure::Custom(HypeError::InvalidAssociatedTokenId));
        }
        if !accounts[SYSTEM_PROGRAM].key.is_system_program() {
            return Err(Failure::Custom(HypeError::InvalidSystemProgramId));
        }
        let root = load_root(program_id, &accounts[ROOT])?;
        if !root.base_crncy_mint.equals(&accounts[BASE_MINT].key) {
            return Err(Failure::Custom(HypeError::InvalidBaseCrncyMint));
        }
        if !root.base_crncy_program_address.equals(&accounts[RESERVE].key) {
            return Err(Failure::Custom(HypeError::InvalidBaseCrncyProgramAddress));
        }
        if !matches_address(&addresses.client_tokens, &accounts[CLIENT_TOKENS].key)
            || !matches_address(&addresses.client_hype, &accounts[CLIENT_HYPE].key) {
            return Err(Failure::Custom(HypeError::InvalidAssociatedTokenAddress));
        }
        assemble_client(program_id, accounts, data, nickname_offset, clock, addresses, root)
    }

    /// Assembles the context of a trade: validates the accounts it names and reads or creates
    /// the client account of the trading wallet.
    pub fn new(
        program_id: &Address,
        accounts: &[AccountView],
        data: &[u8],
        nickname_offset: usize,
        clock: &Clock,
    ) -> (r: Result<(Context, Effects), Failure>)
        ensures
            agrees(
                r,
                assembled(
                    *program_id,
                    accounts@,
                    data@,
                    nickname_offset,
                    *clock,
                    trade_addresses(*program_id, accounts@),
                ),
            ),
    {
        let addresses = derive_trade_addresses(program_id, accounts);
        Context::assemble(program_id, accounts, data, nickname_offset, clock, &addresses)
    }
}

} // verus!
