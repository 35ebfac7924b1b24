//! The typed errors of the engine.
//!
//! Errors are returned up to the nearest lifecycle boundary that can
//! absorb them: a bad transaction aborts only that transaction, a bad
//! blob aborts only that blob, a genesis failure aborts chain
//! initialization as a whole.

use vstd::prelude::*;

verus! {

/// Every failure a module or hook can report.
#[derive(Clone, Copy, PartialEq, Eq, Structural, Debug)]
pub enum Error {
    /// No value is stored under the requested key.
    NotFound,
    /// The transaction's nonce does not equal the account's nonce.
    BadNonce,
    /// The signer's nonce cannot grow any further.
    NonceOverflow,
    /// No account is stored for the signer's public key.
    AccountNotFound,
    /// No sequencer is registered at all.
    UnregisteredSequencer,
    /// The blob's claimed sender is not the registered sequencer.
    InvalidSequencer,
    /// A genesis token's total supply computation overflowed.
    TotalSupplyOverflow,
    /// A token with this derived address already exists.
    TokenAlreadyExists,
    /// No token is stored at this address.
    TokenNotFound,
    /// The paying balance is smaller than the transfer amount.
    InsufficientFunds,
    /// The receiving balance would overflow.
    BalanceOverflow,
    /// The minting account is not authorized for this token.
    NotAuthorizedMinter,
    /// The token's total supply would overflow.
    SupplyOverflow,
    /// Only the configured admin may perform this call.
    NotAdmin,
    /// The vote names no known candidate.
    UnknownCandidate,
    /// The election no longer accepts votes.
    ElectionFrozen,
    /// The election still accepts votes, so it has no result yet.
    ElectionNotFrozen,
    /// A candidate's vote count would overflow.
    VoteCountOverflow,
    /// A pool with this identifier already exists.
    PoolAlreadyExists,
    /// No pool is stored under this identifier.
    PoolNotFound,
    /// Creating the pool's liquidity token failed.
    CreateTokenFailed,
    /// The liquidity token was not created.
    TokenWasNotCreated,
    /// A fund transfer inside the call failed.
    TransferFailed,
    /// Minting liquidity tokens failed.
    MintFailed,
    /// A swap may send only one of the pool's two tokens.
    OnlyOneToken,
    /// The pool holds no liquidity on one of its sides.
    NoLiquidity,
    /// The pool holds less liquidity than the swap asks for.
    NotEnoughLiquidity,
    /// A liquidity amount computation left the representable range.
    LiquidityComputation,
    /// Two runtime modules derived the same address.
    ModuleAddressClash,
}

impl Error {
    /// The stable, human-readable message of this error.
    pub fn message(&self) -> (r: &'static str)
        ensures
            *self == Error::TotalSupplyOverflow ==> r@ == "Total supply overflow"@,
            *self == Error::PoolAlreadyExists ==> r@ == "Pool already exists"@,
    {
        match self {
            Error::NotFound => "Value not found",
            Error::BadNonce => "Tx bad nonce",
            Error::NonceOverflow => "Nonce overflow",
            Error::AccountNotFound => "Account not found",
            Error::UnregisteredSequencer => "Sequencer not registered",
            Error::InvalidSequencer => "Invalid next sequencer.",
            Error::TotalSupplyOverflow => "Total supply overflow",
            Error::TokenAlreadyExists => "Token already exists",
            Error::TokenNotFound => "Token not found",
            Error::InsufficientFunds => "Insufficient funds",
            Error::BalanceOverflow => "Balance overflow",
            Error::NotAuthorizedMinter => "Not an authorized minter",
            Error::SupplyOverflow => "Total supply overflow on mint",
            Error::NotAdmin => "Only admin can change the value",
            Error::UnknownCandidate => "Unknown candidate",
            Error::ElectionFrozen => "Election is frozen",
            Error::ElectionNotFrozen => "Election is not frozen",
            Error::VoteCountOverflow => "Vote count overflow",
            Error::PoolAlreadyExists => "Pool already exists",
            Error::PoolNotFound => "Pool not found",
            Error::CreateTokenFailed => "Create token failed",
            Error::TokenWasNotCreated => "Token was not created",
            Error::TransferFailed => "Transfer failed",
            Error::MintFailed => "Mint failed",
            Error::OnlyOneToken => "Can only send one token",
            Error::NoLiquidity => "Pool has no liquidity",
            Error::NotEnoughLiquidity => "Pool does not have enough liquidity",
            Error::LiquidityComputation => "Liquidity computation overflow",
            Error::ModuleAddressClash => "Module address clash",
        }
    }
}

/// The empty response of a successful module call.
#[derive(Clone, Copy, PartialEq, Eq, Structural, Debug)]
pub struct CallResponse {}

impl CallResponse {
    /// The default (and only) response.
    pub fn new() -> (r: CallResponse) {
        CallResponse {  }
    }
}

} // verus!
