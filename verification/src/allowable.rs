//! The allow gate: an allow-list of addresses with an on/off switch.
//! When the switch is off, every address is allowed.

use vstd::prelude::*;

use crate::ownable::Ownable;
use crate::strlist::{contains_str, has_str, lemma_has_str_push, lemma_has_str_take_succ,
    strings_view};

verus! {

/// Mathematical value of an [`Allowable`].
pub struct AllowableV {
    pub allowed: Seq<Seq<char>>,
    pub enabled: bool,
}

/// The allow gate's state.
pub struct Allowable {
    pub allowed_addrs: Vec<String>,
    pub enabled: bool,
}

impl View for Allowable {
    type V = AllowableV;

    open spec fn view(&self) -> AllowableV {
        AllowableV { allowed: strings_view(self.allowed_addrs@), enabled: self.enabled }
    }
}

/// Whether the address may transact: enforcement is off, or the address
/// stands in the allow-list.
pub open spec fn spec_allowed(v: AllowableV, addr: Seq<char>) -> bool {
    !v.enabled || has_str(v.allowed, addr)
}

#[derive(Debug)]
pub struct InstantiateMsg {
    pub allowed_addrs: Vec<String>,
    pub enabled: bool,
}

#[derive(Debug)]
pub enum ExecuteMsg {
    AddAllowedAddrs { addresses: Vec<String> },
    RemoveAllowedAddrs { addresses: Vec<String> },
    ClearAllAllowedAddrs {},
    SetEnabled { enabled: bool },
}

#[derive(Debug)]
pub enum QueryMsg {
    /// Whether the address is allowed or the allow-list is disabled.
    IsAllowed { address: String },
    /// Whether the address stands in the allow-list.
    IsAllowedAddr(String),
    /// Whether the allow-list is being enforced.
    IsEnabled {},
}

#[derive(Debug, PartialEq)]
pub enum QueryResp {
    IsAllowed { is_allowed: bool },
    IsAllowedAddr(bool),
    IsEnabled { is_enabled: bool },
}

#[derive(Debug)]
pub enum AllowableError {
    Unauthorized,
    CustomError { val: String },
}

impl Default for Allowable {
    fn default() -> (r: Self)
        ensures
            r@.allowed.len() == 0,
            !r@.enabled,
    {
        let r = Allowable { allowed_addrs: Vec::new(), enabled: false };
        proof {
            assert(r@.allowed =~= Seq::<Seq<char>>::empty());
        }
        r
    }
}

impl Allowable {
    /// Whether the allow-list is being enforced.
    pub fn get_enabled(&self) -> (r: bool)
        ensures
            r == self@.enabled,
    {
        self.enabled
    }

    /// Turns enforcement on or off.
    pub fn set_enabled(&mut self, enabled: bool)
        ensures
            final(self)@.enabled == enabled,
            final(self)@.allowed == old(self)@.allowed,
    {
        self.enabled = enabled;
    }

    /// Adds each address to the allow-list.
    pub fn allow_addrs(&mut self, allowed_addrs: Vec<String>)
        ensures
            final(self)@.enabled == old(self)@.enabled,
            forall|a: Seq<char>|
                #[trigger] has_str(final(self)@.allowed, a) <==> has_str(old(self)@.allowed, a)
                    || has_str(strings_view(allowed_addrs@), a),
    {
        let n = allowed_addrs.len();
        let mut k: usize = 0;
        while k < n
            invariant
                k <= n,
                n == allowed_addrs@.len(),
                self.enabled == old(self).enabled,
                forall|a: Seq<char>|
                    #[trigger] has_str(self@.allowed, a) <==> has_str(old(self)@.allowed, a)
                        || has_str(strings_view(allowed_addrs@).take(k as int), a),
            decreases n - k,
        {
            let ghost pre = self@.allowed;
            self.allowed_addrs.push(allowed_addrs[k].clone());
            proof {
                let post = self@.allowed;
                let added = strings_view(allowed_addrs@)[k as int];
                assert(post =~= pre.push(added));
                assert forall|a: Seq<char>| #[trigger] has_str(post, a) == (has_str(
                    old(self)@.allowed,
                    a,
                ) || has_str(strings_view(allowed_addrs@).take(k as int + 1), a)) by {
                    lemma_has_str_push(pre, added, a);
                    lemma_has_str_take_succ(strings_view(allowed_addrs@), k as int, a);
                }
            }
            k = k + 1;
        }
        proof {
            assert(strings_view(allowed_addrs@).take(n as int) =~= strings_view(allowed_addrs@));
        }
    }

    /// Strikes each address from the allow-list.
    pub fn remove_addrs(&mut self, removed_addrs: Vec<String>)
        ensures
            final(self)@.enabled == old(self)@.enabled,
            forall|a: Seq<char>|
                #[trigger] has_str(final(self)@.allowed, a) <==> has_str(old(self)@.allowed, a)
                    && !has_str(strings_view(removed_addrs@), a),
    {
        let n = self.allowed_addrs.len();
        let mut kept: Vec<String> = Vec::new();
        let mut i: usize = 0;
        proof {
            assert(strings_view(kept@) =~= Seq::<Seq<char>>::empty());
        }
        while i < n
            invariant
                i <= n,
                n == self.allowed_addrs@.len(),
                forall|a: Seq<char>|
                    #[trigger] has_str(strings_view(kept@), a) <==> has_str(
                        strings_view(self.allowed_addrs@).take(i as int),
                        a,
                    ) && !has_str(strings_view(removed_addrs@), a),
            decreases n - i,
        {
            let ghost pre = strings_view(kept@);
            let ghost cur = strings_view(self.allowed_addrs@)[i as int];
            let keep = !contains_str(&removed_addrs, self.allowed_addrs[i].as_str());
            if keep {
                kept.push(self.allowed_addrs[i].clone());
                proof {
                    assert(strings_view(kept@) =~= pre.push(cur));
                }
            }
            proof {
                assert forall|a: Seq<char>| #[trigger] has_str(strings_view(kept@), a) == (has_str(
                    strings_view(self.allowed_addrs@).take(i as int + 1),
                    a,
                ) && !has_str(strings_view(removed_addrs@), a)) by {
                    if keep {
                        lemma_has_str_push(pre, cur, a);
                    }
                    lemma_has_str_take_succ(strings_view(self.allowed_addrs@), i as int, a);
                }
            }
            i = i + 1;
        }
        proof {
            assert(strings_view(self.allowed_addrs@).take(n as int) =~= strings_view(
                self.allowed_addrs@,
            ));
        }
        self.allowed_addrs = kept;
    }

    /// Empties the allow-list.
    pub fn clear_addrs(&mut self)
        ensures
            final(self)@.enabled == old(self)@.enabled,
            final(self)@.allowed.len() == 0,
    {
        self.allowed_addrs = Vec::new();
        proof {
            assert(self@.allowed =~= Seq::<Seq<char>>::empty());
        }
    }

    /// Whether the address may transact: the switch is off, or the address
    /// stands in the allow-list.
    pub fn is_allowed(&self, addr: &str) -> (r: bool)
        ensures
            r == spec_allowed(self@, addr@),
    {
        if !self.enabled {
            return true;
        }
        contains_str(&self.allowed_addrs, addr)
    }

    /// Seeding: the initial allow-list and switch position.
    pub fn instantiate(&mut self, msg: InstantiateMsg)
        ensures
            final(self)@.enabled == msg.enabled,
            forall|a: Seq<char>|
                #[trigger] has_str(final(self)@.allowed, a) <==> has_str(old(self)@.allowed, a)
                    || has_str(strings_view(msg.allowed_addrs@), a),
    {
        self.enabled = msg.enabled;
        self.allow_addrs(msg.allowed_addrs);
    }

    /// Command dispatch: only the administrator may alter the allow-list.
    pub fn execute(&mut self, ownable: &Ownable, sender: &str, msg: ExecuteMsg) -> (r: Result<
        (),
        AllowableError,
    >)
        ensures
            match r {
                Ok(()) => sender@ == ownable@ && match msg {
                    ExecuteMsg::AddAllowedAddrs { addresses } => final(self)@.enabled == old(self)@.enabled
                        && forall|a: Seq<char>|
                        #[trigger] has_str(final(self)@.allowed, a) <==> has_str(
                            old(self)@.allowed,
                            a,
                        ) || has_str(strings_view(addresses@), a),
                    ExecuteMsg::RemoveAllowedAddrs { addresses } => final(self)@.enabled == old(self)@.enabled
                        && forall|a: Seq<char>|
                        #[trigger] has_str(final(self)@.allowed, a) <==> has_str(
                            old(self)@.allowed,
                            a,
                        ) && !has_str(strings_view(addresses@), a),
                    ExecuteMsg::ClearAllAllowedAddrs {} => final(self)@.enabled == old(self)@.enabled
                        && final(self)@.allowed.len() == 0,
                    ExecuteMsg::SetEnabled { enabled } => final(self)@.enabled == enabled
                        && final(self)@.allowed == old(self)@.allowed,
                },
                Err(AllowableError::Unauthorized) => sender@ != ownable@
                    && *final(self) == *old(self),
                Err(AllowableError::CustomError { .. }) => false,
            },
    {
        if !ownable.is_owner(sender) {
            return Err(AllowableError::Unauthorized);
        }
        match msg {
            ExecuteMsg::AddAllowedAddrs { addresses } => {
                self.allow_addrs(addresses);
            },
            ExecuteMsg::RemoveAllowedAddrs { addresses } => {
                self.remove_addrs(addresses);
            },
            ExecuteMsg::ClearAllAllowedAddrs {} => {
                self.clear_addrs();
            },
            ExecuteMsg::SetEnabled { enabled } => {
                self.set_enabled(enabled);
            },
        }
        Ok(())
    }

    /// Query dispatch.
    pub fn query(&self, msg: QueryMsg) -> (r: QueryResp)
        ensures
            match msg {
                QueryMsg::IsAllowed { address } => r == (QueryResp::IsAllowed {
                    is_allowed: spec_allowed(self@, address@),
                }),
                QueryMsg::IsAllowedAddr(address) => r == QueryResp::IsAllowedAddr(
                    has_str(self@.allowed, address@),
                ),
                QueryMsg::IsEnabled {} => r == (QueryResp::IsEnabled {
                    is_enabled: self@.enabled,
                }),
            },
    {
        match msg {
            QueryMsg::IsAllowed { address } => QueryResp::IsAllowed {
                is_allowed: self.is_allowed(address.as_str()),
            },
            QueryMsg::IsAllowedAddr(address) => QueryResp::IsAllowedAddr(
                contains_str(&self.allowed_addrs, address.as_str()),
            ),
            QueryMsg::IsEnabled {} => QueryResp::IsEnabled { is_enabled: self.get_enabled() },
        }
    }
}

} // verus!
