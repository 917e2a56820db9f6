//! Errors of the settlement engine.

use vstd::prelude::*;

use crate::token::TokenError;

verus! {

#[derive(Debug)]
pub enum ContractError {
    Unauthorized,
    /// The token was redeemed and can no longer be traded.
    TicketRedeemed,
    /// The token is locked and can currently not be traded.
    TicketLocked,
    /// The token has no metadata record.
    NoMetadataPresent,
    /// A listing for this token already exists.
    TokenAlreadyListed,
    /// Listing prices must be positive.
    InvalidListingPrice,
    /// No listing matches the request.
    NoListedTokensError,
    /// The buyer's limit lies below the lowest offer.
    LimitBelowLowestOffer { limit: u128, lowest_price: u128 },
    /// The attached funds do not cover the seat price.
    InsufficientFundsError { fund: u128, seat_price: u128 },
    /// The transaction attached no funds.
    NoFundsPresent,
    /// The transaction attached more than one coin.
    MultipleFundsError,
    /// The attached coin has the wrong denomination.
    WrongFundError,
    /// The token does not exist in the token ledger.
    TokenIDNotFoundError,
    /// An error of the token ledger.
    BaseError(TokenError),
}

impl ContractError {
    /// A short description of the error.
    pub fn message(&self) -> (r: &'static str)
    {
        match self {
            ContractError::Unauthorized => "Unauthorized",
            ContractError::TicketRedeemed => "Redeemed",
            ContractError::TicketLocked => "Locked",
            ContractError::NoMetadataPresent => "Missing required metadata",
            ContractError::TokenAlreadyListed => "Token already listed",
            ContractError::InvalidListingPrice => "Invalid listing price",
            ContractError::NoListedTokensError => "No tokens listed for sale",
            ContractError::LimitBelowLowestOffer { .. } => "Limit below lowest offer",
            ContractError::InsufficientFundsError { .. } => "Funds below seat price",
            ContractError::NoFundsPresent => "No relevant funds present in transaction",
            ContractError::MultipleFundsError => "Multiple funds present",
            ContractError::WrongFundError => "Wrong fund in transaction",
            ContractError::TokenIDNotFoundError => "Token ID not found",
            ContractError::BaseError(_) => "Token module error",
        }
    }
}

} // verus!
