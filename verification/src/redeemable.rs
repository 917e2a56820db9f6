//! The lock gate: the set of token ids that are locked or redeemed and
//! therefore untradeable.

use vstd::prelude::*;

use crate::strlist::{contains_str, has_str, lemma_has_str_push, strings_view};

verus! {

/// The lock gate's state: the locked (redeemed) token ids.
pub struct Redeemable {
    pub locked_items: Vec<String>,
}

impl View for Redeemable {
    type V = Seq<Seq<char>>;

    open spec fn view(&self) -> Seq<Seq<char>> {
        strings_view(self.locked_items@)
    }
}

#[derive(Debug)]
pub struct InstantiateMsg {
    pub locked_items: Vec<String>,
}

#[derive(Debug)]
pub enum QueryMsg {
    IsRedeemed(String),
}

#[derive(Debug, PartialEq)]
pub enum QueryResp {
    IsRedeemed(bool),
}

impl Default for Redeemable {
    fn default() -> (r: Self)
        ensures
            r@.len() == 0,
    {
        let r = Redeemable { locked_items: Vec::new() };
        proof {
            assert(r@ =~= Seq::<Seq<char>>::empty());
        }
        r
    }
}

impl Redeemable {
    pub fn new(locked_items: Vec<String>) -> (r: Self)
        ensures
            r@ == strings_view(locked_items@),
    {
        Redeemable { locked_items }
    }

    /// Seeding: the initially locked ids.
    pub fn instantiate(&mut self, msg: InstantiateMsg)
        ensures
            final(self)@ == strings_view(msg.locked_items@),
    {
        self.locked_items = msg.locked_items;
    }

    /// Locks a token: from here on it is reported as redeemed.
    pub fn redeem_item(&mut self, token_id: String)
        ensures
            forall|a: Seq<char>|
                #[trigger] has_str(final(self)@, a) <==> has_str(old(self)@, a) || a == token_id@,
    {
        let ghost pre = self@;
        let ghost idv = token_id@;
        self.locked_items.push(token_id);
        proof {
            let post = self@;
            assert(post =~= pre.push(idv));
            assert forall|a: Seq<char>| #[trigger] has_str(post, a) == (has_str(pre, a) || a
                == idv) by {
                lemma_has_str_push(pre, idv, a);
            }
        }
    }

    /// Whether the token is locked or redeemed.
    pub fn is_redeemed(&self, token_id: &str) -> (r: bool)
        ensures
            r == has_str(self@, token_id@),
    {
        contains_str(&self.locked_items, token_id)
    }

    /// Query dispatch.
    pub fn query(&self, msg: QueryMsg) -> (r: QueryResp)
        ensures
            match msg {
                QueryMsg::IsRedeemed(id) => r == QueryResp::IsRedeemed(has_str(self@, id@)),
            },
    {
        match msg {
            QueryMsg::IsRedeemed(id) => QueryResp::IsRedeemed(self.is_redeemed(id.as_str())),
        }
    }
}

} // verus!
