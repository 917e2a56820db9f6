//! Commands and queries of the primary-sale scheduler.

use vstd::prelude::*;

use crate::coin::{Coin, CoinV};
use crate::sales::state::{PrimarySale, PrimarySaleV};
use crate::token::MintMsg;

verus! {

/// Optionally seeds the history with a first sale.
#[derive(Debug)]
pub struct InstantiateMsg {
    pub sale: Option<CreatePrimarySale>,
}

/// A request to schedule one minting round.
#[derive(Debug)]
pub struct CreatePrimarySale {
    /// Supply cap; `0` means unlimited.
    pub total_supply: u64,
    /// Start of the sale window, in seconds.
    pub start_time: u64,
    /// End of the sale window, in seconds.
    pub end_time: u64,
    pub price: Coin,
}

/// Mathematical value of a [`CreatePrimarySale`].
pub struct CreatePrimarySaleV {
    pub total_supply: int,
    pub start_time: int,
    pub end_time: int,
    pub price: CoinV,
}

impl View for CreatePrimarySale {
    type V = CreatePrimarySaleV;

    open spec fn view(&self) -> CreatePrimarySaleV {
        CreatePrimarySaleV {
            total_supply: self.total_supply as int,
            start_time: self.start_time as int,
            end_time: self.end_time as int,
            price: self.price@,
        }
    }
}

impl Clone for CreatePrimarySale {
    fn clone(&self) -> (r: Self)
        ensures
            r@ == self@,
    {
        CreatePrimarySale {
            total_supply: self.total_supply,
            start_time: self.start_time,
            end_time: self.end_time,
            price: self.price.clone(),
        }
    }
}

/// The sale a request creates: nothing minted yet, not disabled.
pub open spec fn created_sale(m: CreatePrimarySaleV) -> PrimarySaleV {
    PrimarySaleV {
        total_supply: m.total_supply,
        tokens_minted: 0,
        start_time: m.start_time,
        end_time: m.end_time,
        price: m.price,
        disabled: false,
    }
}

impl From<CreatePrimarySale> for PrimarySale {
    fn from(val: CreatePrimarySale) -> (r: PrimarySale) {
        PrimarySale {
            total_supply: val.total_supply,
            tokens_minted: 0,
            start_time: val.start_time,
            end_time: val.end_time,
            price: val.price,
            disabled: false,
        }
    }
}

impl vstd::std_specs::convert::FromSpecImpl<CreatePrimarySale> for PrimarySale {
    open spec fn obeys_from_spec() -> bool {
        true
    }

    open spec fn from_spec(val: CreatePrimarySale) -> PrimarySale {
        PrimarySale {
            total_supply: val.total_supply,
            tokens_minted: 0,
            start_time: val.start_time,
            end_time: val.end_time,
            price: val.price,
            disabled: false,
        }
    }
}

#[derive(Debug)]
pub enum ExecuteMsg {
    /// Schedules a new primary sale.
    PrimarySale(CreatePrimarySale),
    /// Disables the first sale that is still running.
    HaltSale {},
    /// Buys (mints) one item from the first eligible sale.
    BuyItem(MintMsg),
}

#[derive(Debug)]
pub enum QueryMsg {
    /// Returns the full sale history in creation order.
    PrimarySales {},
    /// Returns the sale whose window contains the present moment, if any.
    ActivePrimarySale {},
}

#[derive(Debug)]
pub enum QueryResp {
    PrimarySales(Vec<PrimarySale>),
    ActivePrimarySale(Option<PrimarySale>),
}

} // verus!
