//! The secondary market: the listing registry and the settlement engine
//! around it, in two configurations — plain, and with a lock gate that keeps
//! redeemed tokens off the market.

pub mod errors;
pub mod execute;
pub mod msg;
pub mod query;
pub mod state;

use vstd::prelude::*;

use crate::allowable::{spec_allowed, Allowable};
use crate::coin::Coin;
use crate::ownable::Ownable;
use crate::redeemable::Redeemable;
use crate::sellable::errors::ContractError;
use crate::sellable::execute::{batch_seeded, buy_post, buy_specific_item_helper, delist_helper,
    delist_post, entries_view, entry_keys_distinct, get_lowest_item_helper, insert_batch,
    is_cheapest, list_helper, list_post, seed_item_ok, Settlement};
use crate::sellable::msg::{ExecuteMsg, InstantiateMsg, QueryMsg, QueryResp};
use crate::sellable::query::{bound_view, listed_tokens_helper, page, page_view, resolved_limit,
    ListedTokensResponse};
use crate::sellable::state::{reg_view, registry_covered, registry_wf, Listing};
use crate::strlist::has_str;
use crate::token::Tokens;

verus! {

/// The secondary market without a lock gate.
pub struct Sellable {
    pub listed_tokens: Vec<Listing>,
}

/// The secondary market with a lock gate: redeemed or locked tokens cannot
/// be bought.
pub struct RSellable {
    pub listed_tokens: Vec<Listing>,
}

impl View for Sellable {
    type V = Seq<state::ListingV>;

    open spec fn view(&self) -> Seq<state::ListingV> {
        reg_view(self.listed_tokens@)
    }
}

impl View for RSellable {
    type V = Seq<state::ListingV>;

    open spec fn view(&self) -> Seq<state::ListingV> {
        reg_view(self.listed_tokens@)
    }
}

impl Default for Sellable {
    fn default() -> (r: Self)
        ensures
            r@.len() == 0,
            r.wf(),
    {
        let r = Sellable { listed_tokens: Vec::new() };
        proof {
            assert(r@ =~= Seq::<state::ListingV>::empty());
        }
        r
    }
}

impl Default for RSellable {
    fn default() -> (r: Self)
        ensures
            r@.len() == 0,
            r.wf(),
    {
        let r = RSellable { listed_tokens: Vec::new() };
        proof {
            assert(r@ =~= Seq::<state::ListingV>::empty());
        }
        r
    }
}

impl Sellable {
    /// Well-formed: the registry is sorted by token id with positive prices.
    pub open spec fn wf(&self) -> bool {
        registry_wf(self@)
    }

    pub fn new(listed_tokens: Vec<Listing>) -> (r: Self)
        requires
            registry_wf(reg_view(listed_tokens@)),
        ensures
            r@ == reg_view(listed_tokens@),
            r.wf(),
    {
        Sellable { listed_tokens }
    }

    /// Only the administrator passes.
    pub fn check_ownable(&self, ownable: &Ownable, sender: &str) -> (r: Result<(), ContractError>)
        ensures
            r is Ok <==> sender@ == ownable@,
            r is Err ==> r == Err::<(), ContractError>(ContractError::Unauthorized),
    {
        if ownable.is_owner(sender) {
            Ok(())
        } else {
            Err(ContractError::Unauthorized)
        }
    }

    /// This configuration has no lock gate: every token passes.
    pub fn check_redeemable(&self, _redeemable: &Redeemable, _token_id: &str) -> (r: Result<
        (),
        ContractError,
    >)
        ensures
            r is Ok,
    {
        Ok(())
    }

    /// Only callers the allow gate admits pass.
    pub fn check_is_allowed(&self, allowable: &Allowable, sender: &str) -> (r: Result<
        (),
        ContractError,
    >)
        ensures
            r is Ok <==> spec_allowed(allowable@, sender@),
            r is Err ==> r == Err::<(), ContractError>(ContractError::Unauthorized),
    {
        if allowable.is_allowed(sender) {
            Ok(())
        } else {
            Err(ContractError::Unauthorized)
        }
    }

    /// Lists each entry of the batch at its price, all or nothing.
    pub fn try_list(&mut self, tokens: &Tokens, sender: &str, listings: Vec<(String, Coin)>) -> (r:
        Result<(), ContractError>)
        requires
            old(self).wf(),
            tokens.wf(),
            registry_covered(old(self)@, tokens@),
            entry_keys_distinct(entries_view(listings@)),
        ensures
            list_post(old(self)@, final(self)@, tokens@, sender@, entries_view(listings@), r),
    {
        list_helper(&mut self.listed_tokens, tokens, sender, listings)
    }

    /// Delists a listed token on request of its owner.
    pub fn try_delist(&mut self, tokens: &Tokens, sender: &str, token_id: &str) -> (r: Result<
        (),
        ContractError,
    >)
        requires
            old(self).wf(),
            tokens.wf(),
            registry_covered(old(self)@, tokens@),
        ensures
            delist_post(old(self)@, final(self)@, tokens@, sender@, token_id@, r),
    {
        delist_helper(&mut self.listed_tokens, tokens, sender, token_id)
    }

    /// Buys the named token, or the cheapest listed token when none is
    /// named.
    pub fn try_buy(
        &mut self,
        tokens: &mut Tokens,
        sender: &str,
        funds: &Vec<Coin>,
        token_id: Option<String>,
    ) -> (r: Result<Settlement, ContractError>)
        requires
            old(self).wf(),
            old(tokens).wf(),
            registry_covered(old(self)@, old(tokens)@),
        ensures
            final(self).wf(),
            final(tokens).wf(),
            registry_covered(final(self)@, final(tokens)@),
            match token_id {
                Some(id) => buy_post(
                    old(self)@,
                    final(self)@,
                    old(tokens)@,
                    final(tokens)@,
                    None,
                    sender@,
                    funds@,
                    id@,
                    r,
                ),
                None => {
                    &&& (old(self)@.len() == 0 ==> final(self)@ == old(self)@ && final(tokens)@
                        == old(tokens)@ && r == Err::<Settlement, ContractError>(
                        ContractError::NoListedTokensError,
                    ))
                    &&& (old(self)@.len() > 0 ==> exists|id: Seq<char>|
                        #[trigger] is_cheapest(old(self)@, id) && buy_post(
                            old(self)@,
                            final(self)@,
                            old(tokens)@,
                            final(tokens)@,
                            None,
                            sender@,
                            funds@,
                            id,
                            r,
                        ))
                },
            },
    {
        match token_id {
            Some(id) => buy_specific_item_helper(
                &mut self.listed_tokens,
                tokens,
                None,
                sender,
                funds,
                id.as_str(),
            ),
            None => {
                let lowest = get_lowest_item_helper(&self.listed_tokens);
                match lowest {
                    Ok(id) => {
                        let ghost idv = id@;
                        let r = buy_specific_item_helper(
                            &mut self.listed_tokens,
                            tokens,
                            None,
                            sender,
                            funds,
                            id.as_str(),
                        );
                        proof {
                            assert(is_cheapest(old(self)@, idv));
                        }
                        r
                    },
                    Err(e) => Err(e),
                }
            },
        }
    }

    /// Seeds the registry with initial listings.
    pub fn instantiate(&mut self, tokens: &Tokens, msg: InstantiateMsg)
        requires
            old(self).wf(),
            tokens.wf(),
            registry_covered(old(self)@, tokens@),
            entry_keys_distinct(entries_view(msg.tokens@)),
            forall|k: int|
                0 <= k < entries_view(msg.tokens@).len() ==> seed_item_ok(
                    old(self)@,
                    tokens@,
                    (#[trigger] entries_view(msg.tokens@)[k]).0,
                    entries_view(msg.tokens@)[k].1,
                ),
        ensures
            final(self).wf(),
            registry_covered(final(self)@, tokens@),
            batch_seeded(old(self)@, final(self)@, entries_view(msg.tokens@)),
    {
        insert_batch(&mut self.listed_tokens, tokens, &msg.tokens);
    }

    /// Command dispatch.
    pub fn execute(
        &mut self,
        tokens: &mut Tokens,
        sender: &str,
        funds: &Vec<Coin>,
        msg: ExecuteMsg,
    ) -> (r: Result<Option<Settlement>, ContractError>)
        requires
            old(self).wf(),
            old(tokens).wf(),
            registry_covered(old(self)@, old(tokens)@),
            match msg {
                ExecuteMsg::List { listings } => entry_keys_distinct(entries_view(listings@)),
                _ => true,
            },
        ensures
            final(self).wf(),
            final(tokens).wf(),
            registry_covered(final(self)@, final(tokens)@),
            match msg {
                ExecuteMsg::List { listings } => final(tokens)@ == old(tokens)@ && (match r {
                    Ok(opt) => opt is None && list_post(
                        old(self)@,
                        final(self)@,
                        old(tokens)@,
                        sender@,
                        entries_view(listings@),
                        Ok(()),
                    ),
                    Err(e) => list_post(
                        old(self)@,
                        final(self)@,
                        old(tokens)@,
                        sender@,
                        entries_view(listings@),
                        Err(e),
                    ),
                }),
                ExecuteMsg::Delist { token_id } => final(tokens)@ == old(tokens)@ && (match r {
                    Ok(opt) => opt is None && delist_post(
                        old(self)@,
                        final(self)@,
                        old(tokens)@,
                        sender@,
                        token_id@,
                        Ok(()),
                    ),
                    Err(e) => delist_post(
                        old(self)@,
                        final(self)@,
                        old(tokens)@,
                        sender@,
                        token_id@,
                        Err(e),
                    ),
                }),
                ExecuteMsg::Buy {} => {
                    &&& (old(self)@.len() == 0 ==> final(self)@ == old(self)@ && final(tokens)@
                        == old(tokens)@ && r == Err::<Option<Settlement>, ContractError>(
                        ContractError::NoListedTokensError,
                    ))
                    &&& (old(self)@.len() > 0 ==> exists|id: Seq<char>|
                        #[trigger] is_cheapest(old(self)@, id) && (match r {
                            Ok(opt) => opt is Some && buy_post(
                                old(self)@,
                                final(self)@,
                                old(tokens)@,
                                final(tokens)@,
                                None,
                                sender@,
                                funds@,
                                id,
                                Ok(opt.unwrap()),
                            ),
                            Err(e) => buy_post(
                                old(self)@,
                                final(self)@,
                                old(tokens)@,
                                final(tokens)@,
                                None,
                                sender@,
                                funds@,
                                id,
                                Err(e),
                            ),
                        }))
                },
                ExecuteMsg::BuyToken { token_id } => match r {
                    Ok(opt) => opt is Some && buy_post(
                        old(self)@,
                        final(self)@,
                        old(tokens)@,
                        final(tokens)@,
                        None,
                        sender@,
                        funds@,
                        token_id@,
                        Ok(opt.unwrap()),
                    ),
                    Err(e) => buy_post(
                        old(self)@,
                        final(self)@,
                        old(tokens)@,
                        final(tokens)@,
                        None,
                        sender@,
                        funds@,
                        token_id@,
                        Err(e),
                    ),
                },
            },
    {
        match msg {
            ExecuteMsg::List { listings } => {
                self.try_list(tokens, sender, listings)?;
                Ok(None)
            },
            ExecuteMsg::Delist { token_id } => {
                self.try_delist(tokens, sender, token_id.as_str())?;
                Ok(None)
            },
            ExecuteMsg::Buy {} => {
                let st = self.try_buy(tokens, sender, funds, None)?;
                Ok(Some(st))
            },
            ExecuteMsg::BuyToken { token_id } => {
                let st = self.try_buy(tokens, sender, funds, Some(token_id))?;
                Ok(Some(st))
            },
        }
    }

    /// The currently listed tokens, token-id ascending.
    pub fn listed_tokens(
        &self,
        tokens: &Tokens,
        start_after: Option<String>,
        limit: Option<u32>,
    ) -> (r: ListedTokensResponse)
        requires
            self.wf(),
            tokens.wf(),
        ensures
            page_view(r.tokens@) == page(
                tokens@,
                self@,
                bound_view(start_after),
                resolved_limit(limit),
            ),
    {
        listed_tokens_helper(&self.listed_tokens, tokens, start_after, limit)
    }

    /// Query dispatch.
    pub fn query(&self, tokens: &Tokens, msg: QueryMsg) -> (r: QueryResp)
        requires
            self.wf(),
            tokens.wf(),
        ensures
            match msg {
                QueryMsg::ListedTokens { start_after, limit } => match r {
                    QueryResp::ListedTokens(v) => page_view(v@) == page(
                        tokens@,
                        self@,
                        bound_view(start_after),
                        resolved_limit(limit),
                    ),
                },
            },
    {
        match msg {
            QueryMsg::ListedTokens { start_after, limit } => {
                let resp = self.listed_tokens(tokens, start_after, limit);
                QueryResp::ListedTokens(resp.tokens)
            },
        }
    }
}

impl RSellable {
    /// Well-formed: the registry is sorted by token id with positive prices.
    pub open spec fn wf(&self) -> bool {
        registry_wf(self@)
    }

    pub fn new(listed_tokens: Vec<Listing>) -> (r: Self)
        requires
            registry_wf(reg_view(listed_tokens@)),
        ensures
            r@ == reg_view(listed_tokens@),
            r.wf(),
    {
        RSellable { listed_tokens }
    }

    /// Only the administrator passes.
    pub fn check_ownable(&self, ownable: &Ownable, sender: &str) -> (r: Result<(), ContractError>)
        ensures
            r is Ok <==> sender@ == ownable@,
            r is Err ==> r == Err::<(), ContractError>(ContractError::Unauthorized),
    {
        if ownable.is_owner(sender) {
            Ok(())
        } else {
            Err(ContractError::Unauthorized)
        }
    }

    /// Only tokens the lock gate reports as untouched pass.
    pub fn check_redeemable(&self, redeemable: &Redeemable, token_id: &str) -> (r: Result<
        (),
        ContractError,
    >)
        ensures
            r is Ok <==> !has_str(redeemable@, token_id@),
            r is Err ==> r == Err::<(), ContractError>(ContractError::TicketRedeemed),
    {
        if redeemable.is_redeemed(token_id) {
            Err(ContractError::TicketRedeemed)
        } else {
            Ok(())
        }
    }

    /// Only callers the allow gate admits pass.
    pub fn check_is_allowed(&self, allowable: &Allowable, sender: &str) -> (r: Result<
        (),
        ContractError,
    >)
        ensures
            r is Ok <==> spec_allowed(allowable@, sender@),
            r is Err ==> r == Err::<(), ContractError>(ContractError::Unauthorized),
    {
        if allowable.is_allowed(sender) {
            Ok(())
        } else {
            Err(ContractError::Unauthorized)
        }
    }

    /// Lists each entry of the batch at its price, all or nothing.
    pub fn try_list(&mut self, tokens: &Tokens, sender: &str, listings: Vec<(String, Coin)>) -> (r:
        Result<(), ContractError>)
        requires
            old(self).wf(),
            tokens.wf(),
            registry_covered(old(self)@, tokens@),
            entry_keys_distinct(entries_view(listings@)),
        ensures
            list_post(old(self)@, final(self)@, tokens@, sender@, entries_view(listings@), r),
    {
        list_helper(&mut self.listed_tokens, tokens, sender, listings)
    }

    /// Delists a listed token on request of its owner.
    pub fn try_delist(&mut self, tokens: &Tokens, sender: &str, token_id: &str) -> (r: Result<
        (),
        ContractError,
    >)
        requires
            old(self).wf(),
            tokens.wf(),
            registry_covered(old(self)@, tokens@),
        ensures
            delist_post(old(self)@, final(self)@, tokens@, sender@, token_id@, r),
    {
        delist_helper(&mut self.listed_tokens, tokens, sender, token_id)
    }

    /// Buys the named token, or the cheapest listed token when none is
    /// named; tokens the lock gate holds cannot be bought.
    pub fn try_buy(
        &mut self,
        tokens: &mut Tokens,
        redeemable: &Redeemable,
        sender: &str,
        funds: &Vec<Coin>,
        token_id: Option<String>,
    ) -> (r: Result<Settlement, ContractError>)
        requires
            old(self).wf(),
            old(tokens).wf(),
            registry_covered(old(self)@, old(tokens)@),
        ensures
            final(self).wf(),
            final(tokens).wf(),
            registry_covered(final(self)@, final(tokens)@),
            match token_id {
                Some(id) => buy_post(
                    old(self)@,
                    final(self)@,
                    old(tokens)@,
                    final(tokens)@,
                    Some(redeemable),
                    sender@,
                    funds@,
                    id@,
                    r,
                ),
                None => {
                    &&& (old(self)@.len() == 0 ==> final(self)@ == old(self)@ && final(tokens)@
                        == old(tokens)@ && r == Err::<Settlement, ContractError>(
                        ContractError::NoListedTokensError,
                    ))
                    &&& (old(self)@.len() > 0 ==> exists|id: Seq<char>|
                        #[trigger] is_cheapest(old(self)@, id) && buy_post(
                            old(self)@,
                            final(self)@,
                            old(tokens)@,
                            final(tokens)@,
                            Some(redeemable),
                            sender@,
                            funds@,
                            id,
                            r,
                        ))
                },
            },
    {
        match token_id {
            Some(id) => buy_specific_item_helper(
                &mut self.listed_tokens,
                tokens,
                Some(redeemable),
                sender,
                funds,
                id.as_str(),
            ),
            None => {
                let lowest = get_lowest_item_helper(&self.listed_tokens);
                match lowest {
                    Ok(id) => {
                        let ghost idv = id@;
                        let r = buy_specific_item_helper(
                            &mut self.listed_tokens,
                            tokens,
                            Some(redeemable),
                            sender,
                            funds,
                            id.as_str(),
                        );
                        proof {
                            assert(is_cheapest(old(self)@, idv));
                        }
                        r
                    },
                    Err(e) => Err(e),
                }
            },
        }
    }

    /// Command dispatch.
    pub fn execute(
        &mut self,
        tokens: &mut Tokens,
        redeemable: &Redeemable,
        sender: &str,
        funds: &Vec<Coin>,
        msg: ExecuteMsg,
    ) -> (r: Result<Option<Settlement>, ContractError>)
        requires
            old(self).wf(),
            old(tokens).wf(),
            registry_covered(old(self)@, old(tokens)@),
            match msg {
                ExecuteMsg::List { listings } => entry_keys_distinct(entries_view(listings@)),
                _ => true,
            },
        ensures
            final(self).wf(),
            final(tokens).wf(),
            registry_covered(final(self)@, final(tokens)@),
            match msg {
                ExecuteMsg::List { listings } => final(tokens)@ == old(tokens)@ && (match r {
                    Ok(opt) => opt is None && list_post(
                        old(self)@,
                        final(self)@,
                        old(tokens)@,
                        sender@,
                        entries_view(listings@),
                        Ok(()),
                    ),
                    Err(e) => list_post(
                        old(self)@,
                        final(self)@,
                        old(tokens)@,
                        sender@,
                        entries_view(listings@),
                        Err(e),
                    ),
                }),
                ExecuteMsg::Delist { token_id } => final(tokens)@ == old(tokens)@ && (match r {
                    Ok(opt) => opt is None && delist_post(
                        old(self)@,
                        final(self)@,
                        old(tokens)@,
                        sender@,
                        token_id@,
                        Ok(()),
                    ),
                    Err(e) => delist_post(
                        old(self)@,
                        final(self)@,
                        old(tokens)@,
                        sender@,
                        token_id@,
                        Err(e),
                    ),
                }),
                ExecuteMsg::Buy {} => {
                    &&& (old(self)@.len() == 0 ==> final(self)@ == old(self)@ && final(tokens)@
                        == old(tokens)@ && r == Err::<Option<Settlement>, ContractError>(
                        ContractError::NoListedTokensError,
                    ))
                    &&& (old(self)@.len() > 0 ==> exists|id: Seq<char>|
                        #[trigger] is_cheapest(old(self)@, id) && (match r {
                            Ok(opt) => opt is Some && buy_post(
                                old(self)@,
                                final(self)@,
                                old(tokens)@,
                                final(tokens)@,
                                Some(redeemable),
                                sender@,
                                funds@,
                                id,
                                Ok(opt.unwrap()),
                            ),
                            Err(e) => buy_post(
                                old(self)@,
                                final(self)@,
                                old(tokens)@,
                                final(tokens)@,
                                Some(redeemable),
                                sender@,
                                funds@,
                                id,
                                Err(e),
                            ),
                        }))
                },
                ExecuteMsg::BuyToken { token_id } => match r {
                    Ok(opt) => opt is Some && buy_post(
                        old(self)@,
                        final(self)@,
                        old(tokens)@,
                        final(tokens)@,
                        Some(redeemable),
                        sender@,
                        funds@,
                        token_id@,
                        Ok(opt.unwrap()),
                    ),
                    Err(e) => buy_post(
                        old(self)@,
                        final(self)@,
                        old(tokens)@,
                        final(tokens)@,
                        Some(redeemable),
                        sender@,
                        funds@,
                        token_id@,
                        Err(e),
                    ),
                },
            },
    {
        match msg {
            ExecuteMsg::List { listings } => {
                self.try_list(tokens, sender, listings)?;
                Ok(None)
            },
            ExecuteMsg::Delist { token_id } => {
                self.try_delist(tokens, sender, token_id.as_str())?;
                Ok(None)
            },
            ExecuteMsg::Buy {} => {
                let st = self.try_buy(tokens, redeemable, sender, funds, None)?;
                Ok(Some(st))
            },
            ExecuteMsg::BuyToken { token_id } => {
                let st = self.try_buy(tokens, redeemable, sender, funds, Some(token_id))?;
                Ok(Some(st))
            },
        }
    }

    /// The currently listed tokens, token-id ascending.
    pub fn listed_tokens(
        &self,
        tokens: &Tokens,
        start_after: Option<String>,
        limit: Option<u32>,
    ) -> (r: ListedTokensResponse)
        requires
            self.wf(),
            tokens.wf(),
        ensures
            page_view(r.tokens@) == page(
                tokens@,
                self@,
                bound_view(start_after),
                resolved_limit(limit),
            ),
    {
        listed_tokens_helper(&self.listed_tokens, tokens, start_after, limit)
    }

    /// Query dispatch.
    pub fn query(&self, tokens: &Tokens, msg: QueryMsg) -> (r: QueryResp)
        requires
            self.wf(),
            tokens.wf(),
        ensures
            match msg {
                QueryMsg::ListedTokens { start_after, limit } => match r {
                    QueryResp::ListedTokens(v) => page_view(v@) == page(
                        tokens@,
                        self@,
                        bound_view(start_after),
                        resolved_limit(limit),
                    ),
                },
            },
    {
        match msg {
            QueryMsg::ListedTokens { start_after, limit } => {
                let resp = self.listed_tokens(tokens, start_after, limit);
                QueryResp::ListedTokens(resp.tokens)
            },
        }
    }
}

} // verus!
