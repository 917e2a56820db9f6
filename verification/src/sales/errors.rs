//! Errors of the primary-sale scheduler.

use vstd::prelude::*;

use crate::token::TokenError;

verus! {

#[derive(Debug)]
pub enum ContractError {
    Unauthorized,
    /// A primary sale is still running.
    OngoingPrimarySaleError,
    /// No primary sale is running.
    NoOngoingPrimarySaleError,
    /// An error of the token ledger.
    TokenModuleError(TokenError),
    /// The transaction attached no funds.
    NoFundsError,
    /// The transaction attached more than one coin.
    MultipleFundsError,
    /// The attached coin has the wrong denomination.
    WrongFundError,
    /// The attached funds do not cover the sale price.
    InsufficientFundsError,
    /// A parameter of the requested sale is invalid; the field names it.
    InvalidPrimarySaleParamError(String),
}

impl ContractError {
    /// A short description of the error.
    pub fn message(&self) -> (r: &'static str)
    {
        match self {
            ContractError::Unauthorized => "Unauthorized",
            ContractError::OngoingPrimarySaleError => "Ongoing Primary Sale",
            ContractError::NoOngoingPrimarySaleError => "No Active Primary Sale",
            ContractError::TokenModuleError(_) => "Token Module",
            ContractError::NoFundsError => "No Funds",
            ContractError::MultipleFundsError => "Multiple Funds",
            ContractError::WrongFundError => "Wrong Fund Denom",
            ContractError::InsufficientFundsError => "Insufficient Funds",
            ContractError::InvalidPrimarySaleParamError(_) => "Invalid Primary Sale parameter",
        }
    }
}

} // verus!
