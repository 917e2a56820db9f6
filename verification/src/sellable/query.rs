//! The listed-tokens query: a finite, restartable page of
//! `(token id, price, token metadata)` triples, ordered by token id
//! ascending, beginning strictly after `start_after` when given.

use vstd::prelude::*;

use crate::coin::{Coin, CoinV};
use crate::lex::{lex_lt, str_lt};
use crate::sellable::state::{find_listing, is_listed, reg_view, registry_index_of, registry_wf,
    Listing, ListingV};
use crate::token::{TokenInfo, TokenInfoV, TokenV, Tokens};

verus! {

/// Page size used when the caller names none.
pub const DEFAULT_LIMIT: u32 = 500;

/// Hard cap on the page size.
pub const MAX_LIMIT: u32 = 10000;

/// One page of listed tokens, in lexicographic token-id order.
#[derive(Debug)]
pub struct ListedTokensResponse {
    pub tokens: Vec<(String, Coin, TokenInfo)>,
}

/// The page size a request resolves to.
pub open spec fn resolved_limit(limit: Option<u32>) -> int {
    match limit {
        Some(l) => if l < MAX_LIMIT {
            l as int
        } else {
            MAX_LIMIT as int
        },
        None => DEFAULT_LIMIT as int,
    }
}

/// View of an optional string bound.
pub open spec fn bound_view(o: Option<String>) -> Option<Seq<char>> {
    match o {
        Some(s) => Some(s@),
        None => None,
    }
}

/// Whether a ledger record belongs on the page: its token is listed, and its
/// id comes strictly after the bound when one is given.
pub open spec fn page_include(reg: Seq<ListingV>, after: Option<Seq<char>>, t: TokenV) -> bool {
    &&& is_listed(reg, t.token_id)
    &&& match after {
        Some(a) => lex_lt(a, t.token_id),
        None => true,
    }
}

/// The page entry a ledger record yields.
pub open spec fn page_entry(reg: Seq<ListingV>, t: TokenV) -> (Seq<char>, CoinV, TokenInfoV) {
    (
        t.token_id,
        find_listing(reg, t.token_id).unwrap().price,
        TokenInfoV { owner: t.owner, token_uri: t.token_uri },
    )
}

/// The page: walk the ledger in order, keep what belongs on the page, stop
/// after `limit` entries.
pub open spec fn page(
    toks: Seq<TokenV>,
    reg: Seq<ListingV>,
    after: Option<Seq<char>>,
    limit: int,
) -> Seq<(Seq<char>, CoinV, TokenInfoV)>
    decreases toks.len(),
{
    if limit <= 0 || toks.len() == 0 {
        Seq::empty()
    } else if page_include(reg, after, toks[0]) {
        seq![page_entry(reg, toks[0])] + page(toks.skip(1), reg, after, limit - 1)
    } else {
        page(toks.skip(1), reg, after, limit)
    }
}

pub proof fn lemma_page_len(
    toks: Seq<TokenV>,
    reg: Seq<ListingV>,
    after: Option<Seq<char>>,
    limit: int,
)
    ensures
        page(toks, reg, after, limit).len() <= (if limit >= 0 {
            limit
        } else {
            0
        }),
    decreases toks.len(),
{
    if limit > 0 && toks.len() > 0 {
        lemma_page_len(toks.skip(1), reg, after, limit - 1);
        lemma_page_len(toks.skip(1), reg, after, limit);
    }
}

/// Splitting the walked ledger: the page of a concatenation is the first
/// part's page followed by the second part's page under the remaining limit.
pub proof fn lemma_page_append(
    a: Seq<TokenV>,
    b: Seq<TokenV>,
    reg: Seq<ListingV>,
    after: Option<Seq<char>>,
    limit: int,
)
    requires
        limit >= 0,
    ensures
        page(a + b, reg, after, limit) == page(a, reg, after, limit) + page(
            b,
            reg,
            after,
            limit - page(a, reg, after, limit).len(),
        ),
    decreases a.len(),
{
    lemma_page_len(a, reg, after, limit);
    if a.len() == 0 {
        assert(a + b =~= b);
        assert(page(a, reg, after, limit) =~= Seq::empty());
        assert(page(a, reg, after, limit) + page(b, reg, after, limit) =~= page(
            b,
            reg,
            after,
            limit,
        ));
    } else if limit == 0 {
        assert(page(a + b, reg, after, limit) =~= Seq::empty());
        assert(page(a, reg, after, limit) + page(b, reg, after, 0 - page(
            a,
            reg,
            after,
            limit,
        ).len()) =~= Seq::empty());
    } else {
        assert((a + b)[0] == a[0]);
        assert((a + b).skip(1) =~= a.skip(1) + b);
        if page_include(reg, after, a[0]) {
            lemma_page_append(a.skip(1), b, reg, after, limit - 1);
            assert(page(a + b, reg, after, limit) =~= page(a, reg, after, limit) + page(
                b,
                reg,
                after,
                limit - page(a, reg, after, limit).len(),
            ));
        } else {
            lemma_page_append(a.skip(1), b, reg, after, limit);
        }
    }
}

/// The page inherits the ledger's order: every entry carries the id of some
/// ledger record, and entries come out in strictly ascending id order.
pub proof fn lemma_page_sorted(
    toks: Seq<TokenV>,
    reg: Seq<ListingV>,
    after: Option<Seq<char>>,
    limit: int,
)
    requires
        crate::token::tokens_sorted(toks),
    ensures
        forall|i: int|
            0 <= i < page(toks, reg, after, limit).len() ==> exists|t: int|
                0 <= t < toks.len() && (#[trigger] page(toks, reg, after, limit)[i]).0 == toks[t].token_id,
        forall|i: int, j: int|
            0 <= i < j < page(toks, reg, after, limit).len() ==> lex_lt(
                (#[trigger] page(toks, reg, after, limit)[i]).0,
                (#[trigger] page(toks, reg, after, limit)[j]).0,
            ),
    decreases toks.len(),
{
    let p = page(toks, reg, after, limit);
    if limit <= 0 || toks.len() == 0 {
    } else {
        let rest = toks.skip(1);
        assert forall|a: int, b: int| 0 <= a < b < rest.len() implies lex_lt(
            #[trigger] rest[a].token_id,
            #[trigger] rest[b].token_id,
        ) by {
            assert(rest[a] == toks[a + 1]);
            assert(rest[b] == toks[b + 1]);
        }
        if page_include(reg, after, toks[0]) {
            lemma_page_sorted(rest, reg, after, limit - 1);
            let pt = page(rest, reg, after, limit - 1);
            assert(p == seq![page_entry(reg, toks[0])] + pt);
            assert forall|i: int| 0 <= i < p.len() implies exists|t: int|
                0 <= t < toks.len() && (#[trigger] p[i]).0 == toks[t].token_id by {
                if i == 0 {
                    assert(p[0].0 == toks[0].token_id);
                } else {
                    assert(p[i] == pt[i - 1]);
                    let t = choose|t: int| 0 <= t < rest.len() && (#[trigger] pt[i - 1]).0
                        == rest[t].token_id;
                    assert(p[i].0 == toks[t + 1].token_id);
                }
            }
            assert forall|i: int, j: int| 0 <= i < j < p.len() implies lex_lt(
                (#[trigger] p[i]).0,
                (#[trigger] p[j]).0,
            ) by {
                assert(p[j] == pt[j - 1]);
                let t = choose|t: int| 0 <= t < rest.len() && (#[trigger] pt[j - 1]).0
                    == rest[t].token_id;
                assert(rest[t] == toks[t + 1]);
                if i == 0 {
                    assert(p[0].0 == toks[0].token_id);
                    assert(lex_lt(toks[0].token_id, toks[t + 1].token_id));
                } else {
                    assert(p[i] == pt[i - 1]);
                }
            }
        } else {
            lemma_page_sorted(rest, reg, after, limit);
            let pt = page(rest, reg, after, limit);
            assert(p == pt);
            assert forall|i: int| 0 <= i < p.len() implies exists|t: int|
                0 <= t < toks.len() && (#[trigger] p[i]).0 == toks[t].token_id by {
                let t = choose|t: int| 0 <= t < rest.len() && (#[trigger] pt[i]).0
                    == rest[t].token_id;
                assert(p[i].0 == toks[t + 1].token_id);
            }
        }
    }
}

/// View of the page vector.
pub open spec fn page_view(v: Seq<(String, Coin, TokenInfo)>) -> Seq<(Seq<char>, CoinV, TokenInfoV)> {
    v.map_values(|e: (String, Coin, TokenInfo)| (e.0@, e.1@, e.2@))
}

/// Builds the page of listed tokens for a query.
pub fn listed_tokens_helper(
    listed_tokens: &Vec<Listing>,
    tokens: &Tokens,
    start_after: Option<String>,
    limit: Option<u32>,
) -> (r: ListedTokensResponse)
    requires
        registry_wf(reg_view(listed_tokens@)),
        tokens.wf(),
    ensures
        page_view(r.tokens@) == page(
            tokens@,
            reg_view(listed_tokens@),
            bound_view(start_after),
            resolved_limit(limit),
        ),
{
    let ghost reg = reg_view(listed_tokens@);
    let ghost after = bound_view(start_after);
    let lim_u32: u32 = match limit {
        Some(l) => if l < MAX_LIMIT {
            l
        } else {
            MAX_LIMIT
        },
        None => DEFAULT_LIMIT,
    };
    let lim = lim_u32 as usize;
    let n = tokens.token_count();
    let mut out: Vec<(String, Coin, TokenInfo)> = Vec::new();
    let mut m: usize = 0;
    let mut i: usize = 0;
    proof {
        assert(tokens@.take(0) =~= Seq::<TokenV>::empty());
        assert(page_view(out@) =~= Seq::<(Seq<char>, CoinV, TokenInfoV)>::empty());
    }
    while i < n && m < lim
        invariant
            i <= n,
            m <= lim,
            n == tokens@.len(),
            m == out@.len(),
            lim == resolved_limit(limit),
            reg == reg_view(listed_tokens@),
            after == bound_view(start_after),
            registry_wf(reg),
            tokens.wf(),
            page_view(out@) == page(tokens@.take(i as int), reg, after, lim as int),
        decreases n - i,
    {
        let t = &tokens.tokens[i];
        let found = registry_index_of(listed_tokens, t.token_id.as_str());
        let after_ok = match &start_after {
            Some(a) => str_lt(a.as_str(), t.token_id.as_str()),
            None => true,
        };
        let included = found.is_some() && after_ok;
        proof {
            let tv = tokens@[i as int];
            let single = seq![tv];
            let l = lim as int - m as int;
            assert(tokens@.take(i as int + 1) =~= tokens@.take(i as int) + single);
            lemma_page_append(tokens@.take(i as int), single, reg, after, lim as int);
            assert(page(tokens@.take(i as int), reg, after, lim as int).len() == m);
            assert(included == page_include(reg, after, tv));
            assert(single.skip(1) =~= Seq::<TokenV>::empty());
            assert(page(Seq::<TokenV>::empty(), reg, after, l - 1) =~= Seq::<(
                Seq<char>,
                CoinV,
                TokenInfoV,
            )>::empty());
            assert(page(Seq::<TokenV>::empty(), reg, after, l) =~= Seq::<(
                Seq<char>,
                CoinV,
                TokenInfoV,
            )>::empty());
            if included {
                assert(page(single, reg, after, l) =~= seq![page_entry(reg, tv)]);
            } else {
                assert(page(single, reg, after, l) =~= Seq::<(
                    Seq<char>,
                    CoinV,
                    TokenInfoV,
                )>::empty());
            }
            assert(page(tokens@.take(i as int + 1), reg, after, lim as int) =~= page(
                tokens@.take(i as int),
                reg,
                after,
                lim as int,
            ) + page(single, reg, after, l));
        }
        if included {
            let j = found.unwrap();
            let p = listed_tokens[j].price.clone();
            let ghost pre = page_view(out@);
            out.push((t.token_id.clone(), p, t.info()));
            m = m + 1;
            proof {
                assert(page_view(out@) =~= pre.push(page_entry(reg, tokens@[i as int])));
                assert(page(tokens@.take(i as int + 1), reg, after, lim as int) =~= pre.push(
                    page_entry(reg, tokens@[i as int]),
                ));
            }
        } else {
            proof {
                assert(page(tokens@.take(i as int + 1), reg, after, lim as int) =~= page(
                    tokens@.take(i as int),
                    reg,
                    after,
                    lim as int,
                ));
            }
        }
        i = i + 1;
    }
    proof {
        if i == n {
            assert(tokens@.take(n as int) =~= tokens@);
        } else {
            assert(m == lim);
            assert(tokens@ =~= tokens@.take(i as int) + tokens@.skip(i as int));
            lemma_page_append(
                tokens@.take(i as int),
                tokens@.skip(i as int),
                reg,
                after,
                lim as int,
            );
            lemma_page_len(tokens@.take(i as int), reg, after, lim as int);
            assert(page(tokens@.skip(i as int), reg, after, 0) =~= Seq::empty());
            assert(page_view(out@) =~= page(tokens@, reg, after, lim as int));
        }
    }
    ListedTokensResponse { tokens: out }
}

} // verus!
