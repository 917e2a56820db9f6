//! Funds: single-denomination coin amounts and the bank-transfer instructions
//! that settlement produces.

use vstd::prelude::*;

verus! {

/// Mathematical value of a [`Coin`]: a denomination and an amount.
pub struct CoinV {
    pub denom: Seq<char>,
    pub amount: u128,
}

/// A single-denomination amount of funds.
#[derive(Debug)]
pub struct Coin {
    pub denom: String,
    pub amount: u128,
}

impl View for Coin {
    type V = CoinV;

    open spec fn view(&self) -> CoinV {
        CoinV { denom: self.denom@, amount: self.amount }
    }
}

impl Coin {
    pub fn new(amount: u128, denom: &str) -> (c: Coin)
        ensures
            c@ == (CoinV { denom: denom@, amount }),
    {
        Coin { denom: denom.to_owned(), amount }
    }
}

impl Clone for Coin {
    fn clone(&self) -> (c: Self)
        ensures
            c == *self,
    {
        Coin { denom: self.denom.clone(), amount: self.amount }
    }
}

/// Mathematical value of a [`Payment`].
pub struct PaymentV {
    pub to_address: Seq<char>,
    pub amount: CoinV,
}

/// One bank transfer that the surrounding transaction must execute.
#[derive(Debug)]
pub struct Payment {
    pub to_address: String,
    pub amount: Coin,
}

impl View for Payment {
    type V = PaymentV;

    open spec fn view(&self) -> PaymentV {
        PaymentV { to_address: self.to_address@, amount: self.amount@ }
    }
}

impl Clone for Payment {
    fn clone(&self) -> (p: Self)
        ensures
            p == *self,
    {
        Payment { to_address: self.to_address.clone(), amount: self.amount.clone() }
    }
}

} // verus!
