//! The token ledger: existence, ownership and metadata of tokens, with
//! mint and transfer as its only mutations. Records are kept sorted by
//! token id, which both enforces id uniqueness and fixes the order of
//! paged queries.

use vstd::prelude::*;

use crate::lex::{lex_lt, lemma_lex_irrefl, lemma_lex_total, lemma_lex_trans, str_eq, str_lt};

verus! {

/// Metadata of a token as returned by queries.
#[derive(Debug)]
pub struct TokenInfo {
    pub owner: String,
    pub token_uri: Option<String>,
}

/// Mathematical value of a [`TokenInfo`].
pub struct TokenInfoV {
    pub owner: Seq<char>,
    pub token_uri: Option<Seq<char>>,
}

/// One record of the token ledger.
#[derive(Debug)]
pub struct Token {
    pub token_id: String,
    pub owner: String,
    pub token_uri: Option<String>,
}

/// Mathematical value of a [`Token`].
pub struct TokenV {
    pub token_id: Seq<char>,
    pub owner: Seq<char>,
    pub token_uri: Option<Seq<char>>,
}

/// View of an optional string as an optional character sequence.
pub open spec fn opt_view(o: Option<String>) -> Option<Seq<char>> {
    match o {
        Some(s) => Some(s@),
        None => None,
    }
}

impl View for Token {
    type V = TokenV;

    open spec fn view(&self) -> TokenV {
        TokenV {
            token_id: self.token_id@,
            owner: self.owner@,
            token_uri: opt_view(self.token_uri),
        }
    }
}

impl View for TokenInfo {
    type V = TokenInfoV;

    open spec fn view(&self) -> TokenInfoV {
        TokenInfoV { owner: self.owner@, token_uri: opt_view(self.token_uri) }
    }
}

/// Clones an optional string.
pub fn clone_opt_string(o: &Option<String>) -> (r: Option<String>)
    ensures
        opt_view(r) == opt_view(*o),
{
    match o {
        Some(s) => Some(s.clone()),
        None => None,
    }
}

impl Clone for Token {
    fn clone(&self) -> (t: Self)
        ensures
            t@ == self@,
    {
        Token {
            token_id: self.token_id.clone(),
            owner: self.owner.clone(),
            token_uri: clone_opt_string(&self.token_uri),
        }
    }
}

impl Token {
    /// The queryable metadata of this record.
    pub fn info(&self) -> (r: TokenInfo)
        ensures
            r@ == (TokenInfoV { owner: self@.owner, token_uri: self@.token_uri }),
    {
        TokenInfo { owner: self.owner.clone(), token_uri: clone_opt_string(&self.token_uri) }
    }
}

/// A request to create one token.
#[derive(Debug)]
pub struct MintMsg {
    pub token_id: String,
    pub owner: String,
    pub token_uri: Option<String>,
}

/// Errors of the token ledger.
#[derive(Debug, PartialEq, Eq)]
pub enum TokenError {
    /// The requested token id already exists.
    Claimed,
}

/// Ledger records are strictly ordered by token id.
pub open spec fn tokens_sorted(s: Seq<TokenV>) -> bool {
    forall|i: int, j: int|
        0 <= i < j < s.len() ==> lex_lt(#[trigger] s[i].token_id, #[trigger] s[j].token_id)
}

/// The first record with the given id, if any.
pub open spec fn find_token(s: Seq<TokenV>, id: Seq<char>) -> Option<TokenV>
    decreases s.len(),
{
    if s.len() == 0 {
        None
    } else if s[0].token_id == id {
        Some(s[0])
    } else {
        find_token(s.skip(1), id)
    }
}

/// Whether a token with the given id exists.
pub open spec fn has_token(s: Seq<TokenV>, id: Seq<char>) -> bool {
    find_token(s, id) is Some
}

pub proof fn lemma_sorted_distinct(s: Seq<TokenV>, i: int, j: int)
    requires
        tokens_sorted(s),
        0 <= i < s.len(),
        0 <= j < s.len(),
        i != j,
    ensures
        s[i].token_id != s[j].token_id,
{
    if i < j {
        lemma_lex_irrefl(s[i].token_id);
    } else {
        lemma_lex_irrefl(s[j].token_id);
    }
}

/// `find_token` returns the record at any index whose predecessors miss the id.
pub proof fn lemma_find_token_at(s: Seq<TokenV>, id: Seq<char>, i: int)
    requires
        0 <= i < s.len(),
        s[i].token_id == id,
        forall|j: int| 0 <= j < i ==> (#[trigger] s[j].token_id) != id,
    ensures
        find_token(s, id) == Some(s[i]),
    decreases i,
{
    if i > 0 {
        lemma_find_token_at(s.skip(1), id, i - 1);
    }
}

/// `find_token` misses an id that no record carries.
pub proof fn lemma_find_token_none(s: Seq<TokenV>, id: Seq<char>)
    requires
        forall|j: int| 0 <= j < s.len() ==> (#[trigger] s[j].token_id) != id,
    ensures
        find_token(s, id) is None,
    decreases s.len(),
{
    if s.len() > 0 {
        lemma_find_token_none(s.skip(1), id);
    }
}

/// Inserting a record does not change what `find_token` returns for other ids.
pub proof fn lemma_find_token_insert_frame(s: Seq<TokenV>, t: TokenV, k: int, id: Seq<char>)
    requires
        0 <= k <= s.len(),
        id != t.token_id,
    ensures
        find_token(s.insert(k, t), id) == find_token(s, id),
    decreases k,
{
    let s2 = s.insert(k, t);
    if k == 0 {
        assert(s2.skip(1) =~= s);
    } else {
        if s.len() > 0 && s[0].token_id == id {
        } else {
            lemma_find_token_insert_frame(s.skip(1), t, k - 1, id);
            assert(s2.skip(1) =~= s.skip(1).insert(k - 1, t));
        }
    }
}

/// After inserting a record whose id is absent from the prefix before it,
/// `find_token` returns that record for its id.
pub proof fn lemma_find_token_insert_self(s: Seq<TokenV>, t: TokenV, k: int)
    requires
        0 <= k <= s.len(),
        forall|j: int| 0 <= j < k ==> (#[trigger] s[j].token_id) != t.token_id,
    ensures
        find_token(s.insert(k, t), t.token_id) == Some(t),
{
    let s2 = s.insert(k, t);
    assert(forall|j: int| 0 <= j < k ==> (#[trigger] s2[j].token_id) != t.token_id);
    lemma_find_token_at(s2, t.token_id, k);
}

/// Replacing the record at its own index changes `find_token` only for that id.
pub proof fn lemma_find_token_update(s: Seq<TokenV>, k: int, t: TokenV, id: Seq<char>)
    requires
        0 <= k < s.len(),
        t.token_id == s[k].token_id,
        forall|i: int, j: int|
            0 <= i < s.len() && 0 <= j < s.len() && i != j ==> (#[trigger] s[i].token_id)
                != (#[trigger] s[j].token_id),
    ensures
        find_token(s.update(k, t), t.token_id) == Some(t),
        id != t.token_id ==> find_token(s.update(k, t), id) == find_token(s, id),
    decreases k,
{
    let s2 = s.update(k, t);
    assert(forall|j: int| 0 <= j < k ==> (#[trigger] s2[j].token_id) != t.token_id);
    lemma_find_token_at(s2, t.token_id, k);
    if id != t.token_id {
        if k == 0 {
            assert(s2.skip(1) =~= s.skip(1));
        } else if s[0].token_id == id {
        } else {
            lemma_find_token_update(s.skip(1), k - 1, t, id);
            assert(s2.skip(1) =~= s.skip(1).update(k - 1, t));
        }
    }
}

/// The token ledger.
pub struct Tokens {
    pub tokens: Vec<Token>,
}

impl View for Tokens {
    type V = Seq<TokenV>;

    open spec fn view(&self) -> Seq<TokenV> {
        self.tokens@.map_values(|t: Token| t@)
    }
}

impl Default for Tokens {
    fn default() -> (r: Self)
        ensures
            r@ == Seq::<TokenV>::empty(),
            r.wf(),
    {
        let r = Tokens { tokens: Vec::new() };
        proof {
            assert(r@ =~= Seq::<TokenV>::empty());
        }
        r
    }
}

impl Tokens {
    /// Well-formed: records strictly sorted by id (hence ids unique).
    pub open spec fn wf(&self) -> bool {
        tokens_sorted(self@)
    }

    /// How many tokens exist.
    pub fn token_count(&self) -> (n: usize)
        ensures
            n == self@.len(),
    {
        self.tokens.len()
    }

    /// Index of the record with the given id, if any.
    fn index_of(&self, token_id: &str) -> (r: Option<usize>)
        ensures
            match r {
                Some(i) => i < self@.len() && self@[i as int].token_id == token_id@
                    && find_token(self@, token_id@) == Some(self@[i as int]),
                None => find_token(self@, token_id@) is None,
            },
    {
        let n = self.tokens.len();
        let mut i: usize = 0;
        while i < n
            invariant
                i <= n,
                n == self@.len(),
                forall|j: int| 0 <= j < i ==> (#[trigger] self@[j].token_id) != token_id@,
            decreases n - i,
        {
            if str_eq(self.tokens[i].token_id.as_str(), token_id) {
                proof {
                    lemma_find_token_at(self@, token_id@, i as int);
                }
                return Some(i);
            }
            i = i + 1;
        }
        proof {
            lemma_find_token_none(self@, token_id@);
        }
        None
    }

    /// Whether a token with the given id exists.
    pub fn has(&self, token_id: &str) -> (r: bool)
        ensures
            r == has_token(self@, token_id@),
    {
        self.index_of(token_id).is_some()
    }

    /// The record with the given id, if any.
    pub fn find(&self, token_id: &str) -> (r: Option<&Token>)
        ensures
            match r {
                Some(t) => find_token(self@, token_id@) == Some(t@),
                None => find_token(self@, token_id@) is None,
            },
    {
        match self.index_of(token_id) {
            Some(i) => Some(&self.tokens[i]),
            None => None,
        }
    }

    /// First position whose record id is not below the given id; the ledger
    /// is split into a strictly smaller prefix and a not-smaller suffix.
    fn lower_bound(&self, token_id: &str) -> (i: usize)
        ensures
            i <= self@.len(),
            forall|j: int| 0 <= j < i ==> lex_lt(#[trigger] self@[j].token_id, token_id@),
            i < self@.len() ==> !lex_lt(self@[i as int].token_id, token_id@),
    {
        let n = self.tokens.len();
        let mut i: usize = 0;
        loop
            invariant
                i <= n,
                n == self@.len(),
                forall|j: int| 0 <= j < i ==> lex_lt(#[trigger] self@[j].token_id, token_id@),
            decreases n - i,
        {
            if i == n {
                return i;
            }
            if !str_lt(self.tokens[i].token_id.as_str(), token_id) {
                return i;
            }
            i = i + 1;
        }
    }

    /// Creates a new token from the request; fails when the id is claimed.
    /// Relied on for the primary-sale guarantee that a sale can never mint
    /// two tokens under one id.
    pub fn mint(&mut self, msg: MintMsg) -> (r: Result<(), TokenError>)
        requires
            old(self).wf(),
        ensures
            final(self).wf(),
            match r {
                Ok(()) => {
                    &&& !has_token(old(self)@, msg.token_id@)
                    &&& final(self)@.len() == old(self)@.len() + 1
                    &&& find_token(final(self)@, msg.token_id@) == Some(
                        TokenV {
                            token_id: msg.token_id@,
                            owner: msg.owner@,
                            token_uri: opt_view(msg.token_uri),
                        },
                    )
                    &&& forall|id: Seq<char>|
                        id != msg.token_id@ ==> #[trigger] find_token(final(self)@, id)
                            == find_token(old(self)@, id)
                },
                Err(TokenError::Claimed) => {
                    &&& has_token(old(self)@, msg.token_id@)
                    &&& *final(self) == *old(self)
                },
            },
    {
        let ghost s0 = self@;
        let n = self.tokens.len();
        let i = self.lower_bound(msg.token_id.as_str());
        proof {
            assert forall|j: int| 0 <= j < i implies (#[trigger] s0[j].token_id)
                != msg.token_id@ by {
                lemma_lex_irrefl(s0[j].token_id);
            }
        }
        if i < n && str_eq(self.tokens[i].token_id.as_str(), msg.token_id.as_str()) {
            proof {
                lemma_find_token_at(s0, msg.token_id@, i as int);
            }
            return Err(TokenError::Claimed);
        }
        proof {
            // Every record at or after the insertion point is strictly greater.
            assert forall|j: int| i <= j < s0.len() implies lex_lt(
                msg.token_id@,
                #[trigger] s0[j].token_id,
            ) by {
                if s0[i as int].token_id != msg.token_id@ && !lex_lt(
                    s0[i as int].token_id,
                    msg.token_id@,
                ) && !lex_lt(msg.token_id@, s0[i as int].token_id) {
                    lemma_lex_total(s0[i as int].token_id, msg.token_id@);
                }
                if j > i {
                    lemma_lex_trans(msg.token_id@, s0[i as int].token_id, s0[j].token_id);
                }
            }
            assert forall|j: int| 0 <= j < s0.len() implies (#[trigger] s0[j].token_id)
                != msg.token_id@ by {
                lemma_lex_irrefl(s0[j].token_id);
            }
            lemma_find_token_none(s0, msg.token_id@);
        }
        let t = Token { token_id: msg.token_id, owner: msg.owner, token_uri: msg.token_uri };
        let ghost tv = t@;
        let ghost pos = i as int;
        self.tokens.insert(i, t);
        proof {
            assert(self@ =~= s0.insert(pos, tv));
            s0.insert_ensures(pos, tv);
            let s2 = self@;
            assert forall|p: int, q: int| 0 <= p < q < s2.len() implies lex_lt(
                #[trigger] s2[p].token_id,
                #[trigger] s2[q].token_id,
            ) by {
                if p < pos && q < pos {
                } else if p < pos && q == pos {
                } else if p == pos {
                    assert(s2[q] == s0[q - 1]);
                } else if p < pos {
                    assert(s2[q] == s0[q - 1]);
                } else {
                    assert(s2[p] == s0[p - 1]);
                    assert(s2[q] == s0[q - 1]);
                }
            }
            lemma_find_token_insert_self(s0, tv, pos);
            assert forall|id: Seq<char>| id != tv.token_id implies #[trigger] find_token(s2, id)
                == find_token(s0, id) by {
                lemma_find_token_insert_frame(s0, tv, pos, id);
            }
        }
        Ok(())
    }

    /// Moves ownership of an existing token to a new owner.
    pub fn transfer(&mut self, token_id: &str, new_owner: &str)
        requires
            old(self).wf(),
            has_token(old(self)@, token_id@),
        ensures
            final(self).wf(),
            final(self)@.len() == old(self)@.len(),
            find_token(final(self)@, token_id@) == Some(
                TokenV {
                    token_id: token_id@,
                    owner: new_owner@,
                    token_uri: find_token(old(self)@, token_id@).unwrap().token_uri,
                },
            ),
            forall|id: Seq<char>|
                id != token_id@ ==> #[trigger] find_token(final(self)@, id) == find_token(
                    old(self)@,
                    id,
                ),
    {
        let ghost s0 = self@;
        let idx = self.index_of(token_id);
        let i = match idx {
            Some(i) => i,
            None => {
                proof {
                    assert(false);
                }
                0
            },
        };
        let old_t = &self.tokens[i];
        let t = Token {
            token_id: old_t.token_id.clone(),
            owner: new_owner.to_owned(),
            token_uri: clone_opt_string(&old_t.token_uri),
        };
        let ghost tv = t@;
        self.tokens.set(i, t);
        proof {
            assert(self@ =~= s0.update(i as int, tv));
            let s2 = self@;
            assert(tv.token_id == s0[i as int].token_id);
            assert forall|p: int, q: int| 0 <= p < q < s2.len() implies lex_lt(
                #[trigger] s2[p].token_id,
                #[trigger] s2[q].token_id,
            ) by {
                assert(s0[p].token_id == s2[p].token_id);
                assert(s0[q].token_id == s2[q].token_id);
            }
            assert forall|p: int, q: int|
                0 <= p < s0.len() && 0 <= q < s0.len() && p != q implies (
            #[trigger] s0[p].token_id) != (#[trigger] s0[q].token_id) by {
                lemma_sorted_distinct(s0, p, q);
            }
            lemma_find_token_update(s0, i as int, tv, tv.token_id);
            assert forall|id: Seq<char>| id != token_id@ implies #[trigger] find_token(s2, id)
                == find_token(s0, id) by {
                lemma_find_token_update(s0, i as int, tv, id);
            }
            assert(find_token(s0, token_id@) == Some(s0[i as int]));
        }
    }
}

} // verus!
