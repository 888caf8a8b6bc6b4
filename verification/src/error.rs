//! The failures that a request can end in.

use cosmwasm_std::StdError;
use cw_controllers::HookError;
use vstd::prelude::*;

verus! {

/// Why a request was turned down.
#[derive(Debug)]
pub enum ContractError {
    /// The storage beneath the ledger reported an error.
    Std(StdError),
    /// An admin-only action was asked for by someone who is not the admin.
    Unauthorized {},
    /// A failure described in words.
    CustomError { val: String },
    /// The identity cannot be a host: the game table cannot key it.
    NotValidAddres {},
    /// The hook controller reported an error.
    Hook(HookError),
    /// The identity is blacklisted and may not start a match.
    BlacklistedAddress { addr: String },
    /// A result was asked of a match whose opponent has not moved.
    UnexpectedGameResult {},
    /// No open match is stored under the pair.
    GameNotFound {},
}

} // verus!
