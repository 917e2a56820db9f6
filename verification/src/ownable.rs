//! The ownership gate: records the contract's administrator and answers
//! whether a caller is that administrator.

use vstd::prelude::*;

verus! {

/// The ownership gate; its state is the administrator's address.
pub struct Ownable {
    pub owner: String,
}

impl View for Ownable {
    type V = Seq<char>;

    open spec fn view(&self) -> Seq<char> {
        self.owner@
    }
}

#[derive(Debug)]
pub struct InstantiateMsg {}

#[derive(Debug)]
pub enum ExecuteMsg {
    SetOwner(String),
}

#[derive(Debug)]
pub enum QueryMsg {
    /// Returns true if the address matches the owner.
    IsOwner(String),
}

#[derive(Debug, PartialEq)]
pub enum QueryResp {
    /// True if the queried address matches the owner.
    IsOwner(bool),
}

#[derive(Debug)]
pub enum OwnableError {
    Unauthorized,
    CustomError { val: String },
}

impl Ownable {
    pub fn new(owner: String) -> (r: Self)
        ensures
            r@ == owner@,
    {
        Ownable { owner }
    }

    /// The administrator's address.
    pub fn get_owner(&self) -> (r: String)
        ensures
            r@ == self@,
    {
        self.owner.clone()
    }

    /// Whether the given address is the administrator.
    pub fn is_owner(&self, addr: &str) -> (r: bool)
        ensures
            r == (addr@ == self@),
    {
        crate::lex::str_eq(self.owner.as_str(), addr)
    }

    /// Replaces the administrator.
    pub fn set_owner(&mut self, addr: &str)
        ensures
            final(self)@ == addr@,
    {
        self.owner = addr.to_owned();
    }

    /// Seeding: the instantiating caller becomes the administrator.
    pub fn instantiate(&mut self, sender: &str, _msg: InstantiateMsg)
        ensures
            final(self)@ == sender@,
    {
        self.owner = sender.to_owned();
    }

    /// Command dispatch: only the current administrator may hand ownership on.
    pub fn execute(&mut self, sender: &str, msg: ExecuteMsg) -> (r: Result<(), OwnableError>)
        ensures
            match r {
                Ok(()) => sender@ == old(self)@ && match msg {
                    ExecuteMsg::SetOwner(o) => final(self)@ == o@,
                },
                Err(OwnableError::Unauthorized) => sender@ != old(self)@
                    && *final(self) == *old(self),
                Err(OwnableError::CustomError { .. }) => false,
            },
    {
        match msg {
            ExecuteMsg::SetOwner(o) => {
                if !self.is_owner(sender) {
                    return Err(OwnableError::Unauthorized);
                }
                self.set_owner(o.as_str());
                Ok(())
            },
        }
    }

    /// Query dispatch.
    pub fn query(&self, msg: QueryMsg) -> (r: QueryResp)
        ensures
            match msg {
                QueryMsg::IsOwner(a) => r == QueryResp::IsOwner(a@ == self@),
            },
    {
        match msg {
            QueryMsg::IsOwner(a) => QueryResp::IsOwner(self.is_owner(a.as_str())),
        }
    }
}

} // verus!
