//! Scheduling, halting and serving primary sales.

use vstd::prelude::*;

use crate::coin::{Coin, CoinV, Payment, PaymentV};
use crate::lex::str_eq;
use crate::ownable::Ownable;
use crate::sales::errors::ContractError;
use crate::sales::msg::{created_sale, CreatePrimarySale, CreatePrimarySaleV};
use crate::sales::state::{bumped, first_eligible, first_haltable, halted, lemma_first_eligible,
    lemma_first_haltable, no_window_overlap, ranges_overlap, sale_eligible, sale_haltable,
    sales_wf, PrimarySale, PrimarySaleV};
use crate::sales::Sales;
use crate::token::{find_token, has_token, opt_view, MintMsg, TokenError, TokenV, Tokens};

verus! {

/// Whether the closed ranges of two sale windows touch.
fn check_events_overlap(a_start: u64, a_end: u64, b_start: u64, b_end: u64) -> (r: bool)
    ensures
        r == ranges_overlap(a_start as int, a_end as int, b_start as int, b_end as int),
{
    if b_start <= a_start && a_start <= b_end {
        return true;
    }
    if b_start <= a_end && a_end <= b_end {
        return true;
    }
    if a_start <= b_start && b_start <= a_end {
        return true;
    }
    if a_start <= b_end && b_end <= a_end {
        return true;
    }
    false
}

/// Complete description of an `add_primary_sale` call: history `h0` to `h1`.
pub open spec fn add_post(
    h0: Seq<PrimarySaleV>,
    h1: Seq<PrimarySaleV>,
    m: CreatePrimarySaleV,
    now: int,
    sender: Seq<char>,
    owner: Seq<char>,
    r: Result<PrimarySale, ContractError>,
) -> bool {
    &&& sales_wf(h1)
    &&& (r is Ok <==> (m.start_time >= now && m.end_time > m.start_time && sender == owner
        && no_window_overlap(h0, m.start_time, m.end_time)))
    &&& match r {
        Ok(sale) => h1 == h0.push(created_sale(m)) && sale@ == created_sale(m),
        Err(e) => h1 == h0 && match e {
            ContractError::InvalidPrimarySaleParamError(f) => {
                ||| (m.start_time < now && f@ == "start time"@)
                ||| (m.start_time >= now && m.end_time <= m.start_time && f@ == "end time"@)
                ||| (m.start_time >= now && m.end_time > m.start_time && sender == owner
                    && !no_window_overlap(h0, m.start_time, m.end_time) && f@ == "overlap"@)
            },
            ContractError::Unauthorized => m.start_time >= now && m.end_time > m.start_time
                && sender != owner,
            _ => false,
        },
    }
}

/// Complete description of a `halt_sale` call.
pub open spec fn halt_post(
    h0: Seq<PrimarySaleV>,
    h1: Seq<PrimarySaleV>,
    now: int,
    sender: Seq<char>,
    owner: Seq<char>,
    r: Result<PrimarySale, ContractError>,
) -> bool {
    let k = first_haltable(h0, now);
    &&& sales_wf(h1)
    &&& (r is Ok <==> (sender == owner && k < h0.len()))
    &&& match r {
        Ok(sale) => h1 == h0.update(k, halted(h0[k])) && sale@ == halted(h0[k]),
        Err(e) => h1 == h0 && match e {
            ContractError::Unauthorized => sender != owner,
            ContractError::NoOngoingPrimarySaleError => sender == owner && k == h0.len(),
            _ => false,
        },
    }
}

/// What a served purchase hands back: the sale as it now stands, the
/// refund, and the bank transfers to execute.
#[derive(Debug)]
pub struct BuyItemReceipt {
    pub sale: PrimarySale,
    pub refund: u128,
    pub payments: Vec<Payment>,
}

/// Complete description of a `buy_item` call: history `h0` to `h1`, token
/// ledger `toks0` to `toks1`, with the sale's proceeds owed to `owner`.
pub open spec fn buy_item_post(
    h0: Seq<PrimarySaleV>,
    h1: Seq<PrimarySaleV>,
    toks0: Seq<TokenV>,
    toks1: Seq<TokenV>,
    owner: Seq<char>,
    sender: Seq<char>,
    funds: Seq<Coin>,
    msg: MintMsg,
    now: int,
    r: Result<BuyItemReceipt, ContractError>,
) -> bool {
    let k = first_eligible(h0, now);
    let price = h0[k].price;
    &&& sales_wf(h1)
    &&& crate::token::tokens_sorted(toks1)
    &&& match r {
        Ok(rc) => {
            &&& k < h0.len()
            &&& funds.len() == 1
            &&& funds[0]@.denom == price.denom
            &&& funds[0]@.amount >= price.amount
            &&& !has_token(toks0, msg.token_id@)
            &&& h1 == h0.update(k, bumped(h0[k]))
            &&& rc.sale@ == bumped(h0[k])
            &&& toks1.len() == toks0.len() + 1
            &&& find_token(toks1, msg.token_id@) == Some(
                TokenV {
                    token_id: msg.token_id@,
                    owner: msg.owner@,
                    token_uri: opt_view(msg.token_uri),
                },
            )
            &&& forall|x: Seq<char>|
                x != msg.token_id@ ==> #[trigger] find_token(toks1, x) == find_token(toks0, x)
            &&& funds[0]@.amount == price.amount + rc.refund
            &&& rc.payments@.len() == (if rc.refund > 0 {
                2int
            } else {
                1int
            })
            &&& rc.payments@[0]@ == (PaymentV { to_address: owner, amount: price })
            &&& (rc.refund > 0 ==> rc.payments@[1]@ == (PaymentV {
                to_address: sender,
                amount: CoinV { denom: price.denom, amount: rc.refund },
            }))
        },
        Err(e) => h1 == h0 && toks1 == toks0 && match e {
            ContractError::NoOngoingPrimarySaleError => k == h0.len(),
            ContractError::NoFundsError => k < h0.len() && funds.len() == 0,
            ContractError::MultipleFundsError => k < h0.len() && funds.len() > 1,
            ContractError::WrongFundError => k < h0.len() && funds.len() == 1 && funds[0]@.denom
                != price.denom,
            ContractError::InsufficientFundsError => k < h0.len() && funds.len() == 1
                && funds[0]@.denom == price.denom && funds[0]@.amount < price.amount,
            ContractError::TokenModuleError(TokenError::Claimed) => {
                &&& k < h0.len()
                &&& funds.len() == 1
                &&& funds[0]@.denom == price.denom
                &&& funds[0]@.amount >= price.amount
                &&& has_token(toks0, msg.token_id@)
            },
            _ => false,
        },
    }
}

impl Sales {
    /// Index of the first sale that `halt_sale` may disable.
    fn first_haltable_idx(&self, now: u64) -> (i: usize)
        ensures
            i as int == first_haltable(self@, now as int),
    {
        let n = self.primary_sales.len();
        let mut i: usize = 0;
        loop
            invariant
                i <= n,
                n == self@.len(),
                forall|j: int| 0 <= j < i ==> !sale_haltable(#[trigger] self@[j], now as int),
            decreases n - i,
        {
            proof {
                lemma_first_haltable(self@, now as int);
            }
            if i == n {
                return i;
            }
            let s = &self.primary_sales[i];
            if !s.disabled && s.end_time > now {
                assert(sale_haltable(self@[i as int], now as int));
                return i;
            }
            i = i + 1;
        }
    }

    /// Index of the first sale that `buy_item` may serve.
    fn first_eligible_idx(&self, now: u64) -> (i: usize)
        ensures
            i as int == first_eligible(self@, now as int),
    {
        let n = self.primary_sales.len();
        let mut i: usize = 0;
        loop
            invariant
                i <= n,
                n == self@.len(),
                forall|j: int| 0 <= j < i ==> !sale_eligible(#[trigger] self@[j], now as int),
            decreases n - i,
        {
            proof {
                lemma_first_eligible(self@, now as int);
            }
            if i == n {
                return i;
            }
            let s = &self.primary_sales[i];
            if !s.disabled && s.end_time > now && (s.tokens_minted < s.total_supply
                || s.total_supply == 0) {
                assert(sale_eligible(self@[i as int], now as int));
                return i;
            }
            i = i + 1;
        }
    }

    /// Schedules a new primary sale. The window must lie in the future, end
    /// after it starts, and keep clear of every sale that is not disabled;
    /// only the administrator may schedule.
    pub fn add_primary_sale(
        &mut self,
        msg: CreatePrimarySale,
        now: u64,
        sender: &str,
        ownable: &Ownable,
    ) -> (r: Result<PrimarySale, ContractError>)
        requires
            sales_wf(old(self)@),
        ensures
            add_post(old(self)@, final(self)@, msg@, now as int, sender@, ownable@, r),
    {
        if msg.start_time < now {
            return Err(
                ContractError::InvalidPrimarySaleParamError("start time".to_owned()),
            );
        }
        if msg.end_time <= msg.start_time {
            return Err(ContractError::InvalidPrimarySaleParamError("end time".to_owned()));
        }
        if !ownable.is_owner(sender) {
            return Err(ContractError::Unauthorized);
        }
        let ghost h0 = self@;
        let n = self.primary_sales.len();
        let mut i: usize = 0;
        while i < n
            invariant
                i <= n,
                n == self@.len(),
                h0 == self@,
                sales_wf(h0),
                msg@.start_time >= now as int,
                msg@.end_time > msg@.start_time,
                sender@ == ownable@,
                forall|j: int|
                    0 <= j < i && !(#[trigger] self@[j]).disabled ==> !ranges_overlap(
                        msg@.start_time,
                        msg@.end_time,
                        self@[j].start_time,
                        self@[j].end_time,
                    ),
            decreases n - i,
        {
            let s = &self.primary_sales[i];
            if !s.disabled && check_events_overlap(
                msg.start_time,
                msg.end_time,
                s.start_time,
                s.end_time,
            ) {
                proof {
                    assert(!(#[trigger] h0[i as int]).disabled && ranges_overlap(
                        msg@.start_time,
                        msg@.end_time,
                        h0[i as int].start_time,
                        h0[i as int].end_time,
                    ));
                    assert(!no_window_overlap(h0, msg@.start_time, msg@.end_time));
                }
                return Err(ContractError::InvalidPrimarySaleParamError("overlap".to_owned()));
            }
            i = i + 1;
        }
        let sale = PrimarySale::from(msg);
        let ret = sale.clone();
        let ghost sv = sale@;
        self.primary_sales.push(sale);
        proof {
            assert(self@ =~= h0.push(sv));
        }
        Ok(ret)
    }

    /// Disables the first sale that is not disabled and not yet over; only
    /// the administrator may halt. Nothing changes when no sale qualifies.
    pub fn halt_sale(&mut self, now: u64, sender: &str, ownable: &Ownable) -> (r: Result<
        PrimarySale,
        ContractError,
    >)
        requires
            sales_wf(old(self)@),
        ensures
            halt_post(old(self)@, final(self)@, now as int, sender@, ownable@, r),
    {
        if !ownable.is_owner(sender) {
            return Err(ContractError::Unauthorized);
        }
        let ghost h0 = self@;
        let k = self.first_haltable_idx(now);
        proof {
            lemma_first_haltable(h0, now as int);
        }
        if k == self.primary_sales.len() {
            return Err(ContractError::NoOngoingPrimarySaleError);
        }
        let s = &self.primary_sales[k];
        let new_sale = PrimarySale {
            total_supply: s.total_supply,
            tokens_minted: s.tokens_minted,
            start_time: s.start_time,
            end_time: s.end_time,
            price: s.price.clone(),
            disabled: true,
        };
        let ret = new_sale.clone();
        let ghost nv = new_sale@;
        self.primary_sales.set(k, new_sale);
        proof {
            assert(self@ =~= h0.update(k as int, nv));
            assert(nv == halted(h0[k as int]));
        }
        Ok(ret)
    }

    /// Creates the requested token through the token ledger; fails when the
    /// id is already claimed.
    pub fn mint(&self, tokens: &mut Tokens, msg: MintMsg) -> (r: Result<(), ContractError>)
        requires
            old(tokens).wf(),
        ensures
            final(tokens).wf(),
            match r {
                Ok(()) => {
                    &&& !has_token(old(tokens)@, msg.token_id@)
                    &&& final(tokens)@.len() == old(tokens)@.len() + 1
                    &&& find_token(final(tokens)@, msg.token_id@) == Some(
                        TokenV {
                            token_id: msg.token_id@,
                            owner: msg.owner@,
                            token_uri: opt_view(msg.token_uri),
                        },
                    )
                    &&& forall|x: Seq<char>|
                        x != msg.token_id@ ==> #[trigger] find_token(final(tokens)@, x)
                            == find_token(old(tokens)@, x)
                },
                Err(ContractError::TokenModuleError(TokenError::Claimed)) => {
                    &&& has_token(old(tokens)@, msg.token_id@)
                    &&& *final(tokens) == *old(tokens)
                },
                Err(_) => false,
            },
    {
        match tokens.mint(msg) {
            Ok(()) => Ok(()),
            Err(e) => Err(ContractError::TokenModuleError(e)),
        }
    }

    /// Serves one purchase from the first eligible sale: validates the
    /// funds, mints the requested token for the buyer, counts the mint
    /// (disabling the sale when it reaches its cap), and reports the payment
    /// to the administrator and any refund.
    ///
    /// An unlimited sale (cap `0`) must not have exhausted the machine's
    /// mint counter; a capped sale never can, since the count stays within
    /// the cap.
    pub fn buy_item(
        &mut self,
        now: u64,
        tokens: &mut Tokens,
        ownable: &Ownable,
        sender: &str,
        funds: &Vec<Coin>,
        mint_msg: MintMsg,
    ) -> (r: Result<BuyItemReceipt, ContractError>)
        requires
            sales_wf(old(self)@),
            old(tokens).wf(),
            forall|i: int|
                0 <= i < old(self)@.len() && (#[trigger] old(self)@[i]).total_supply == 0 ==> old(
                    self,
                )@[i].tokens_minted < u64::MAX,
        ensures
            final(tokens).wf(),
            buy_item_post(
                old(self)@,
                final(self)@,
                old(tokens)@,
                final(tokens)@,
                ownable@,
                sender@,
                funds@,
                mint_msg,
                now as int,
                r,
            ),
    {
        let ghost h0 = self@;
        let k = self.first_eligible_idx(now);
        proof {
            lemma_first_eligible(h0, now as int);
        }
        if k == self.primary_sales.len() {
            return Err(ContractError::NoOngoingPrimarySaleError);
        }
        if funds.len() == 0 {
            return Err(ContractError::NoFundsError);
        }
        if funds.len() > 1 {
            return Err(ContractError::MultipleFundsError);
        }
        let fund = &funds[0];
        if !str_eq(fund.denom.as_str(), self.primary_sales[k].price.denom.as_str()) {
            return Err(ContractError::WrongFundError);
        }
        if fund.amount < self.primary_sales[k].price.amount {
            return Err(ContractError::InsufficientFundsError);
        }
        let r = self.mint(tokens, mint_msg);
        if let Err(e) = r {
            return Err(e);
        }
        proof {
            assert(sale_eligible(h0[k as int], now as int));
            if h0[k as int].total_supply == 0 {
                assert(h0[k as int].tokens_minted < u64::MAX);
            }
        }
        let s = &self.primary_sales[k];
        let minted = s.tokens_minted + 1;
        let new_sale = PrimarySale {
            total_supply: s.total_supply,
            tokens_minted: minted,
            start_time: s.start_time,
            end_time: s.end_time,
            price: s.price.clone(),
            disabled: s.disabled || minted == s.total_supply,
        };
        let price = new_sale.price.clone();
        let sale_copy = new_sale.clone();
        let ghost nv = new_sale@;
        self.primary_sales.set(k, new_sale);
        proof {
            assert(self@ =~= h0.update(k as int, nv));
            assert(nv == bumped(h0[k as int]));
        }
        let refund = fund.amount - price.amount;
        let mut payments: Vec<Payment> = Vec::new();
        payments.push(Payment { to_address: ownable.get_owner(), amount: price.clone() });
        if refund > 0 {
            payments.push(
                Payment {
                    to_address: sender.to_owned(),
                    amount: Coin { denom: price.denom.clone(), amount: refund },
                },
            );
        }
        Ok(BuyItemReceipt { sale: sale_copy, refund, payments })
    }
}

} // verus!
