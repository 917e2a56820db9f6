//! Commands and queries of the secondary market.

use vstd::prelude::*;

use crate::coin::Coin;
use crate::token::TokenInfo;

verus! {

/// Seeds the registry with initial listings.
#[derive(Debug)]
pub struct InstantiateMsg {
    pub tokens: Vec<(String, Coin)>,
}

#[derive(Debug)]
pub enum ExecuteMsg {
    /// Lists each named token at the given price.
    List { listings: Vec<(String, Coin)> },
    /// Delists a listed token.
    Delist { token_id: String },
    /// Purchases the cheapest listed token; the attached funds act as the
    /// upper bound for the purchase price.
    Buy {},
    /// Purchases one specific listed token.
    BuyToken { token_id: String },
}

#[derive(Debug)]
pub enum QueryMsg {
    /// Returns the currently listed tokens, token-id ascending, beginning
    /// strictly after `start_after` when given.
    ListedTokens { start_after: Option<String>, limit: Option<u32> },
}

#[derive(Debug)]
pub enum QueryResp {
    ListedTokens(Vec<(String, Coin, TokenInfo)>),
}

} // verus!
