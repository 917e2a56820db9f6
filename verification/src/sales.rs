//! The primary-sale scheduler: an append-only history of minting rounds,
//! served strictly in order, with mint-on-purchase.

pub mod errors;
pub mod execute;
pub mod msg;
pub mod query;
pub mod state;

use vstd::prelude::*;

use crate::coin::Coin;
use crate::ownable::Ownable;
use crate::sales::errors::ContractError;
use crate::sales::execute::{add_post, buy_item_post, halt_post, BuyItemReceipt};
use crate::sales::msg::{ExecuteMsg, InstantiateMsg};
use crate::sales::state::{sales_view, sales_wf, PrimarySale, PrimarySaleV};
use crate::token::Tokens;

verus! {

/// The primary-sale scheduler; its state is the sale history.
pub struct Sales {
    pub primary_sales: Vec<PrimarySale>,
}

impl View for Sales {
    type V = Seq<PrimarySaleV>;

    open spec fn view(&self) -> Seq<PrimarySaleV> {
        sales_view(self.primary_sales@)
    }
}

impl Default for Sales {
    fn default() -> (r: Self)
        ensures
            r@.len() == 0,
            r.wf(),
    {
        let r = Sales { primary_sales: Vec::new() };
        proof {
            assert(r@ =~= Seq::<PrimarySaleV>::empty());
        }
        r
    }
}

/// What an executed command hands back for event reporting.
#[derive(Debug)]
pub enum SalesResponse {
    SaleAdded(PrimarySale),
    SaleHalted(PrimarySale),
    ItemBought(BuyItemReceipt),
}

impl Sales {
    /// Well-formed: every sale of the history is well-formed.
    pub open spec fn wf(&self) -> bool {
        sales_wf(self@)
    }

    pub fn new(primary_sales: Vec<PrimarySale>) -> (r: Self)
        requires
            sales_wf(sales_view(primary_sales@)),
        ensures
            r@ == sales_view(primary_sales@),
            r.wf(),
    {
        Sales { primary_sales }
    }

    /// Seeding: an optional first sale, validated as any scheduled sale is.
    pub fn instantiate(
        &mut self,
        msg: InstantiateMsg,
        now: u64,
        sender: &str,
        ownable: &Ownable,
    ) -> (r: Result<Option<PrimarySale>, ContractError>)
        requires
            sales_wf(old(self)@),
        ensures
            final(self).wf(),
            match msg.sale {
                Some(m) => match r {
                    Ok(opt) => opt is Some && add_post(
                        old(self)@,
                        final(self)@,
                        m@,
                        now as int,
                        sender@,
                        ownable@,
                        Ok(opt.unwrap()),
                    ),
                    Err(e) => add_post(
                        old(self)@,
                        final(self)@,
                        m@,
                        now as int,
                        sender@,
                        ownable@,
                        Err(e),
                    ),
                },
                None => r is Ok && final(self)@ == old(self)@,
            },
    {
        match msg.sale {
            Some(m) => {
                let sale = self.add_primary_sale(m, now, sender, ownable)?;
                Ok(Some(sale))
            },
            None => Ok(None),
        }
    }

    /// Command dispatch.
    pub fn execute(
        &mut self,
        now: u64,
        tokens: &mut Tokens,
        ownable: &Ownable,
        sender: &str,
        funds: &Vec<Coin>,
        msg: ExecuteMsg,
    ) -> (r: Result<SalesResponse, ContractError>)
        requires
            sales_wf(old(self)@),
            old(tokens).wf(),
            match msg {
                ExecuteMsg::BuyItem(_) => forall|i: int|
                    0 <= i < old(self)@.len() && (#[trigger] old(self)@[i]).total_supply == 0
                        ==> old(self)@[i].tokens_minted < u64::MAX,
                _ => true,
            },
        ensures
            final(self).wf(),
            final(tokens).wf(),
            match msg {
                ExecuteMsg::PrimarySale(m) => final(tokens)@ == old(tokens)@ && (match r {
                    Ok(resp) => resp matches SalesResponse::SaleAdded(sale) && add_post(
                        old(self)@,
                        final(self)@,
                        m@,
                        now as int,
                        sender@,
                        ownable@,
                        Ok(sale),
                    ),
                    Err(e) => add_post(
                        old(self)@,
                        final(self)@,
                        m@,
                        now as int,
                        sender@,
                        ownable@,
                        Err(e),
                    ),
                }),
                ExecuteMsg::HaltSale {} => final(tokens)@ == old(tokens)@ && (match r {
                    Ok(resp) => resp matches SalesResponse::SaleHalted(sale) && halt_post(
                        old(self)@,
                        final(self)@,
                        now as int,
                        sender@,
                        ownable@,
                        Ok(sale),
                    ),
                    Err(e) => halt_post(
                        old(self)@,
                        final(self)@,
                        now as int,
                        sender@,
                        ownable@,
                        Err(e),
                    ),
                }),
                ExecuteMsg::BuyItem(mint_msg) => match r {
                    Ok(resp) => resp matches SalesResponse::ItemBought(rc) && buy_item_post(
                        old(self)@,
                        final(self)@,
                        old(tokens)@,
                        final(tokens)@,
                        ownable@,
                        sender@,
                        funds@,
                        mint_msg,
                        now as int,
                        Ok(rc),
                    ),
                    Err(e) => buy_item_post(
                        old(self)@,
                        final(self)@,
                        old(tokens)@,
                        final(tokens)@,
                        ownable@,
                        sender@,
                        funds@,
                        mint_msg,
                        now as int,
                        Err(e),
                    ),
                },
            },
    {
        match msg {
            ExecuteMsg::PrimarySale(m) => {
                let sale = self.add_primary_sale(m, now, sender, ownable)?;
                Ok(SalesResponse::SaleAdded(sale))
            },
            ExecuteMsg::HaltSale {} => {
                let sale = self.halt_sale(now, sender, ownable)?;
                Ok(SalesResponse::SaleHalted(sale))
            },
            ExecuteMsg::BuyItem(mint_msg) => {
                let rc = self.buy_item(now, tokens, ownable, sender, funds, mint_msg)?;
                Ok(SalesResponse::ItemBought(rc))
            },
        }
    }
}

} // verus!
