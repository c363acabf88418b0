//! Operation dispatch: the leading byte of the instruction data selects the operation.

use crate::account::{AccountView, Host};
use crate::action::{agrees, Effects, EffectsModel};
use crate::address::{hype_authority, Address};
use crate::context::trade_addresses;
use crate::error::{Failure, HypeError};
use crate::processor::add_network::{add_network, network_addition};
use crate::processor::add_operator::{add_operator, operator_addition};
use crate::processor::burn::{burn, burn_model};
use crate::processor::change_client_data::{change_client_data, client_change};
use crate::processor::change_token_status::{
    change_token_status, validated_token_entry, status_change,
};
use crate::processor::initialize_holder::{
    holder_address, holder_initialization, initialize_holder,
};
use crate::processor::initialize_root::{initialize_root, root_entry, root_initialization};
use crate::processor::mint::{mint, mint_model, minted_token_entry};
use crate::processor::withdraw_holder_funds::{holder_withdrawal, withdraw_holder_funds};
use crate::processor::withdraw_operator_funds::{
    fee_destination, operator_withdrawal, withdraw_operator_funds,
};
use crate::registry::Appended;
use crate::state::client::ClientAccount;
use crate::state::holder::{HolderAccount, OperatorRecord};
use crate::state::root::{NetworkRecord, RootAccount};
use crate::state::token::TokenAccount;
use crate::trade::Trade;
use vstd::prelude::*;

verus! {

/// Opcode of the bootstrap of the holder registry.
pub const INITIALIZE_HOLDER: u8 = 0;

/// Opcode of the registration of an operator.
pub const ADD_OPERATOR: u8 = 1;

/// Opcode of the bootstrap of a root ledger.
pub const INITIALIZE_ROOT: u8 = 2;

/// Opcode of the registration of a network.
pub const ADD_NETWORK: u8 = 3;

/// Opcode of a mint.
pub const MINT: u8 = 4;

/// Opcode of a burn.
pub const BURN: u8 = 5;

/// Opcode of the change of a client's display name.
pub const CHANGE_CLIENT_DATA: u8 = 6;

/// Opcode of the validation of a token.
pub const CHANGE_TOKEN_STATUS: u8 = 7;

/// Opcode of the sweep of the operator's fee pool.
pub const WITHDRAW_OPERATOR_FUNDS: u8 = 8;

/// Opcode of the sweep of the holder's fee pool.
pub const WITHDRAW_HOLDER_FUNDS: u8 = 9;

/// The entries that an operation hands back to be stored.
#[derive(Clone, Copy, Debug, PartialEq, Eq)]
pub enum Outcome {
    /// The new holder registry.
    HolderInitialized(HolderAccount),
    /// The holder registry's header and the operator record appended to it.
    OperatorAdded(Appended<HolderAccount, OperatorRecord>),
    /// The new root ledger.
    RootInitialized(RootAccount),
    /// The root ledger's header and the network record appended to it.
    NetworkAdded(Appended<RootAccount, NetworkRecord>),
    /// Root ledger, client account and token record after a mint.
    Minted(Trade),
    /// Root ledger, client account and token record after a burn.
    Burned(Trade),
    /// The client account with its new display name.
    ClientChanged(ClientAccount),
    /// The token record with its new status.
    TokenStatusChanged(TokenAccount),
    /// The root ledger with an empty operator pool.
    OperatorFundsWithdrawn(RootAccount),
    /// The root ledger with an empty holder pool.
    HolderFundsWithdrawn(RootAccount),
    /// An opcode that selects no operation: nothing changes.
    Ignored,
}

/// No intents.
pub open spec fn no_effects() -> EffectsModel {
    EffectsModel { actions: Seq::empty() }
}

/// The result of an operation with its entries wrapped as an outcome.
pub open spec fn wrapped<T>(
    r: Result<(T, EffectsModel), Failure>,
    wrap: spec_fn(T) -> Outcome,
) -> Result<(Outcome, EffectsModel), Failure> {
    match r {
        Ok((state, effects)) => Ok((wrap(state), effects)),
        Err(e) => Err(e),
    }
}

/// The result of an operation without effects, with its entry wrapped as an outcome.
pub open spec fn wrapped_plain<T>(r: Result<T, Failure>, wrap: spec_fn(T) -> Outcome) -> Result<
    (Outcome, EffectsModel),
    Failure,
> {
    match r {
        Ok(state) => Ok((wrap(state), no_effects())),
        Err(e) => Err(e),
    }
}

/// What an instruction gives: the result of the operation that its first byte selects.
/// Instruction data without a first byte is refused; a first byte that selects no operation
/// changes nothing.
pub open spec fn dispatched(
    program_id: Address,
    accounts: Seq<AccountView>,
    data: Seq<u8>,
    host: Host,
) -> Result<(Outcome, EffectsModel), Failure> {
    if data.len() == 0 {
        Err(Failure::Custom(HypeError::InvalidInstruction))
    } else if data[0] == INITIALIZE_HOLDER {
        wrapped(
            holder_initialization(
                program_id,
                accounts,
                data,
                host,
                holder_address(program_id, accounts, data),
            ),
            |s: HolderAccount| Outcome::HolderInitialized(s),
        )
    } else if data[0] == ADD_OPERATOR {
        wrapped(
            operator_addition(program_id, accounts, data, host),
            |s: Appended<HolderAccount, OperatorRecord>| Outcome::OperatorAdded(s),
        )
    } else if data[0] == INITIALIZE_ROOT {
        wrapped(
            root_initialization(
                program_id,
                accounts,
                data,
                host,
                hype_authority(program_id),
                root_entry(program_id, data),
            ),
            |s: RootAccount| Outcome::RootInitialized(s),
        )
    } else if data[0] == ADD_NETWORK {
        wrapped(
            network_addition(program_id, accounts, data, host),
            |s: Appended<RootAccount, NetworkRecord>| Outcome::NetworkAdded(s),
        )
    } else if data[0] == MINT {
        wrapped(
            mint_model(
                program_id,
                accounts,
                data,
                host.clock,
                trade_addresses(program_id, accounts),
                minted_token_entry(
                    program_id,
                    accounts,
                    data,
                    trade_addresses(program_id, accounts),
                ),
            ),
            |s: Trade| Outcome::Minted(s),
        )
    } else if data[0] == BURN {
        wrapped(
            burn_model(
                program_id,
                accounts,
                data,
                host.clock,
                trade_addresses(program_id, accounts),
            ),
            |s: Trade| Outcome::Burned(s),
        )
    } else if data[0] == CHANGE_CLIENT_DATA {
        wrapped_plain(
            client_change(program_id, accounts, data, host),
            |s: ClientAccount| Outcome::ClientChanged(s),
        )
    } else if data[0] == CHANGE_TOKEN_STATUS {
        wrapped_plain(
            status_change(
                program_id,
                accounts,
                data,
                host,
                hype_authority(program_id),
                validated_token_entry(program_id, accounts),
            ),
            |s: TokenAccount| Outcome::TokenStatusChanged(s),
        )
    } else if data[0] == WITHDRAW_OPERATOR_FUNDS {
        wrapped(
            operator_withdrawal(
                program_id,
                accounts,
                hype_authority(program_id),
                fee_destination(accounts, 4, 2, 6),
            ),
            |s: RootAccount| Outcome::OperatorFundsWithdrawn(s),
        )
    } else if data[0] == WITHDRAW_HOLDER_FUNDS {
        wrapped(
            holder_withdrawal(
                program_id,
                accounts,
                host,
                hype_authority(program_id),
                fee_destination(accounts, 5, 3, 7),
            ),
            |s: RootAccount| Outcome::HolderFundsWithdrawn(s),
        )
    } else {
        Ok((Outcome::Ignored, no_effects()))
    }
}

fn nothing() -> (r: Effects)
    ensures
        r@ == no_effects(),
{
    let r = Effects { actions: Vec::new() };
    assert(r@.actions =~= no_effects().actions);
    r
}

/// Carries out the operation that the first byte of `data` selects.
pub fn process_instruction(program_id: &Address, accounts: &[AccountView], data: &[u8], host: &Host) -> (r:
    Result<(Outcome, Effects), Failure>)
    ensures
        agrees(r, dispatched(*program_id, accounts@, data@, *host)),
{
    if data.len() == 0 {
        return Err(Failure::Custom(HypeError::InvalidInstruction));
    }
    let opcode = data[0];
    if opcode == INITIALIZE_HOLDER {
        let (s, effects) = initialize_holder(program_id, accounts, data, host)?;
        Ok((Outcome::HolderInitialized(s), effects))
    } else if opcode == ADD_OPERATOR {
        let (s, effects) = add_operator(program_id, accounts, data, host)?;
        Ok((Outcome::OperatorAdded(s), effects))
    } else if opcode == INITIALIZE_ROOT {
        let (s, effects) = initialize_root(program_id, accounts, data, host)?;
        Ok((Outcome::RootInitialized(s), effects))
    } else if opcode == ADD_NETWORK {
        let (s, effects) = add_network(program_id, accounts, data, host)?;
        Ok((Outcome::NetworkAdded(s), effects))
    } else if opcode == MINT {
        let (s, effects) = mint(program_id, accounts, data, &host.clock)?;
        Ok((Outcome::Minted(s), effects))
    } else if opcode == BURN {
        let (s, effects) = burn(program_id, accounts, data, &host.clock)?;
        Ok((Outcome::Burned(s), effects))
    } else if opcode == CHANGE_CLIENT_DATA {
        let s = change_client_data(program_id, accounts, data, host)?;
        Ok((Outcome::ClientChanged(s), nothing()))
    } else if opcode == CHANGE_TOKEN_STATUS {
        let s = change_token_status(program_id, accounts, data, host)?;
        Ok((Outcome::TokenStatusChanged(s), nothing()))
    } else if opcode == WITHDRAW_OPERATOR_FUNDS {
        let (s, effects) = withdraw_operator_funds(program_id, accounts)?;
        Ok((Outcome::OperatorFundsWithdrawn(s), effects))
    } else if opcode == WITHDRAW_HOLDER_FUNDS {
        let (s, effects) = withdraw_holder_funds(program_id, accounts, host)?;
        Ok((Outcome::HolderFundsWithdrawn(s), effects))
    } else {
        Ok((Outcome::Ignored, nothing()))
    }
}

} // verus!
