//! The settlement engine: listing, delisting and buying, with full fund
//! accounting. Every operation validates before it mutates: on an error the
//! registry and the token ledger are exactly as they were.

use vstd::prelude::*;

use crate::coin::{Coin, CoinV, Payment, PaymentV};
use crate::lex::str_eq;
use crate::redeemable::Redeemable;
use crate::sellable::errors::ContractError;
use crate::sellable::state::{find_listing, is_listed, lemma_find_listing_at,
    lemma_find_listing_index, lemma_listing_before_total, lemma_listing_before_trans,
    lemma_registry_distinct, lemma_sorted_find_at, listing_before, listing_before_exec, reg_view,
    registry_covered, registry_index_of, registry_insert, registry_remove, registry_wf, Listing,
    ListingV};
use crate::strlist::has_str;
use crate::token::{find_token, has_token, Tokens};

verus! {

/// View of a batch of `(token id, price)` entries.
pub open spec fn entries_view(v: Seq<(String, Coin)>) -> Seq<(Seq<char>, CoinV)> {
    v.map_values(|p: (String, Coin)| (p.0@, p.1@))
}

/// The batch names each token id at most once (it stands for a map).
pub open spec fn entry_keys_distinct(items: Seq<(Seq<char>, CoinV)>) -> bool {
    forall|p: int, q: int|
        0 <= p < q < items.len() ==> (#[trigger] items[p]).0 != (#[trigger] items[q]).0
}

/// The price the batch assigns to an id, if any.
pub open spec fn batch_find(items: Seq<(Seq<char>, CoinV)>, id: Seq<char>) -> Option<CoinV>
    decreases items.len(),
{
    if items.len() == 0 {
        None
    } else if items[0].0 == id {
        Some(items[0].1)
    } else {
        batch_find(items.skip(1), id)
    }
}

pub proof fn lemma_batch_find_index(items: Seq<(Seq<char>, CoinV)>, id: Seq<char>)
    requires
        batch_find(items, id) is Some,
    ensures
        exists|k: int| 0 <= k < items.len() && (#[trigger] items[k]).0 == id,
    decreases items.len(),
{
    if items.len() > 0 {
        if items[0].0 == id {
            assert(items[0].0 == id);
        } else {
            lemma_batch_find_index(items.skip(1), id);
            let k = choose|k: int| 0 <= k < items.skip(1).len() && (#[trigger] items.skip(1)[k]).0
                == id;
            assert(items[k + 1].0 == id);
        }
    }
}

/// Extending the processed prefix of a batch by one entry.
pub proof fn lemma_batch_find_take_succ(items: Seq<(Seq<char>, CoinV)>, k: int, id: Seq<char>)
    requires
        0 <= k < items.len(),
    ensures
        batch_find(items.take(k + 1), id) == (match batch_find(items.take(k), id) {
            Some(p) => Some(p),
            None => if items[k].0 == id {
                Some(items[k].1)
            } else {
                None
            },
        }),
    decreases k,
{
    if k == 0 {
        assert(items.take(1).len() == 1);
        assert(items.take(1)[0] == items[0]);
        assert(items.take(0).len() == 0);
        if items[0].0 != id {
            assert(items.take(1).skip(1) =~= items.take(0));
        }
    } else {
        lemma_batch_find_take_succ(items.skip(1), k - 1, id);
        assert(items.take(k + 1).skip(1) =~= items.skip(1).take(k));
        assert(items.take(k).skip(1) =~= items.skip(1).take(k - 1));
        assert(items.take(k + 1)[0] == items[0]);
        assert(items.take(k)[0] == items[0]);
        assert(items.skip(1)[k - 1] == items[k]);
    }
}

/// Whether an entry may be seeded into the registry: not yet listed, a
/// positive price, and an existing token.
pub open spec fn seed_item_ok(
    reg: Seq<ListingV>,
    toks: Seq<crate::token::TokenV>,
    id: Seq<char>,
    price: CoinV,
) -> bool {
    &&& !is_listed(reg, id)
    &&& price.amount > 0
    &&& has_token(toks, id)
}

/// Whether one entry of a `list` batch is acceptable: not yet listed, a
/// positive price, an existing token, and the requester its owner.
pub open spec fn list_item_ok(
    reg: Seq<ListingV>,
    toks: Seq<crate::token::TokenV>,
    sender: Seq<char>,
    id: Seq<char>,
    price: CoinV,
) -> bool {
    &&& !is_listed(reg, id)
    &&& price.amount > 0
    &&& has_token(toks, id)
    &&& find_token(toks, id).unwrap().owner == sender
}

/// The error an unacceptable entry draws, in the engine's order of checks.
pub open spec fn list_item_err(
    reg: Seq<ListingV>,
    toks: Seq<crate::token::TokenV>,
    sender: Seq<char>,
    id: Seq<char>,
    price: CoinV,
) -> ContractError {
    if is_listed(reg, id) {
        ContractError::TokenAlreadyListed
    } else if price.amount == 0 {
        ContractError::InvalidListingPrice
    } else if !has_token(toks, id) {
        ContractError::TokenIDNotFoundError
    } else {
        ContractError::Unauthorized
    }
}

/// Index of the first unacceptable entry, or the batch length if all pass.
pub open spec fn first_bad_entry(
    reg: Seq<ListingV>,
    toks: Seq<crate::token::TokenV>,
    sender: Seq<char>,
    items: Seq<(Seq<char>, CoinV)>,
) -> int
    decreases items.len(),
{
    if items.len() == 0 {
        0
    } else if !list_item_ok(reg, toks, sender, items[0].0, items[0].1) {
        0
    } else {
        1 + first_bad_entry(reg, toks, sender, items.skip(1))
    }
}

pub proof fn lemma_first_bad_entry(
    reg: Seq<ListingV>,
    toks: Seq<crate::token::TokenV>,
    sender: Seq<char>,
    items: Seq<(Seq<char>, CoinV)>,
)
    ensures
        0 <= first_bad_entry(reg, toks, sender, items) <= items.len(),
        forall|j: int|
            0 <= j < first_bad_entry(reg, toks, sender, items) ==> list_item_ok(
                reg,
                toks,
                sender,
                (#[trigger] items[j]).0,
                items[j].1,
            ),
        first_bad_entry(reg, toks, sender, items) < items.len() ==> !list_item_ok(
            reg,
            toks,
            sender,
            items[first_bad_entry(reg, toks, sender, items)].0,
            items[first_bad_entry(reg, toks, sender, items)].1,
        ),
    decreases items.len(),
{
    if items.len() > 0 && list_item_ok(reg, toks, sender, items[0].0, items[0].1) {
        lemma_first_bad_entry(reg, toks, sender, items.skip(1));
        assert forall|j: int| 0 <= j < first_bad_entry(reg, toks, sender, items) implies
            list_item_ok(reg, toks, sender, (#[trigger] items[j]).0, items[j].1) by {
            if j > 0 {
                assert(items.skip(1)[j - 1] == items[j]);
            }
        }
        if first_bad_entry(reg, toks, sender, items) < items.len() {
            assert(items.skip(1)[first_bad_entry(reg, toks, sender, items.skip(1))]
                == items[first_bad_entry(reg, toks, sender, items)]);
        }
    }
}

/// Complete description of a `list` call: `reg0` to `reg1`, with ledger
/// `toks`, requester `sender` and batch `items`.
pub open spec fn list_post(
    reg0: Seq<ListingV>,
    reg1: Seq<ListingV>,
    toks: Seq<crate::token::TokenV>,
    sender: Seq<char>,
    items: Seq<(Seq<char>, CoinV)>,
    r: Result<(), ContractError>,
) -> bool {
    &&& registry_wf(reg1)
    &&& registry_covered(reg1, toks)
    &&& (r is Ok <==> (forall|k: int|
        0 <= k < items.len() ==> list_item_ok(
            reg0,
            toks,
            sender,
            (#[trigger] items[k]).0,
            items[k].1,
        )))
    &&& (r is Ok ==> {
        &&& reg1.len() == reg0.len() + items.len()
        &&& forall|id: Seq<char>|
            #[trigger] find_listing(reg1, id) == (match batch_find(items, id) {
                Some(p) => Some(ListingV { token_id: id, price: p }),
                None => find_listing(reg0, id),
            })
    })
    &&& match r {
        Ok(()) => true,
        Err(e) => {
            let k = first_bad_entry(reg0, toks, sender, items);
            &&& reg1 == reg0
            &&& k < items.len()
            &&& e == list_item_err(reg0, toks, sender, items[k].0, items[k].1)
        },
    }
}

/// Complete description of a `delist` call.
pub open spec fn delist_post(
    reg0: Seq<ListingV>,
    reg1: Seq<ListingV>,
    toks: Seq<crate::token::TokenV>,
    sender: Seq<char>,
    id: Seq<char>,
    r: Result<(), ContractError>,
) -> bool {
    &&& registry_wf(reg1)
    &&& registry_covered(reg1, toks)
    &&& (r is Ok <==> (is_listed(reg0, id) && has_token(toks, id) && find_token(
        toks,
        id,
    ).unwrap().owner == sender))
    &&& match r {
        Ok(()) => {
            &&& reg1.len() == reg0.len() - 1
            &&& find_listing(reg1, id) is None
            &&& forall|x: Seq<char>|
                x != id ==> #[trigger] find_listing(reg1, x) == find_listing(reg0, x)
        },
        Err(e) => {
            &&& reg1 == reg0
            &&& e == (if !is_listed(reg0, id) {
                ContractError::NoListedTokensError
            } else if !has_token(toks, id) {
                ContractError::TokenIDNotFoundError
            } else {
                ContractError::Unauthorized
            })
        },
    }
}

/// The listing with this id is the cheapest of the registry under the
/// tie-break order.
pub open spec fn is_cheapest(reg: Seq<ListingV>, id: Seq<char>) -> bool {
    &&& is_listed(reg, id)
    &&& forall|j: int|
        0 <= j < reg.len() && (#[trigger] reg[j]).token_id != id ==> listing_before(
            find_listing(reg, id).unwrap(),
            reg[j],
        )
}

/// No phantom listings: after a successful `list`, a token is listed exactly
/// when the batch named it or it was listed before. Together with the
/// `delist` and `buy` descriptions — which remove exactly the bought or
/// delisted id and keep every other — what `is_listed` reports always
/// reflects the successful calls made, and nothing else.
pub proof fn lemma_listed_after_list(
    reg0: Seq<ListingV>,
    reg1: Seq<ListingV>,
    toks: Seq<crate::token::TokenV>,
    sender: Seq<char>,
    items: Seq<(Seq<char>, CoinV)>,
    r: Result<(), ContractError>,
)
    requires
        list_post(reg0, reg1, toks, sender, items, r),
        r is Ok,
    ensures
        forall|id: Seq<char>|
            #[trigger] is_listed(reg1, id) <==> (batch_find(items, id) is Some || is_listed(
                reg0,
                id,
            )),
{
    assert forall|id: Seq<char>|
        #[trigger] is_listed(reg1, id) <==> (batch_find(items, id) is Some || is_listed(
            reg0,
            id,
        )) by {
        assert(find_listing(reg1, id) == (match batch_find(items, id) {
            Some(p) => Some(ListingV { token_id: id, price: p }),
            None => find_listing(reg0, id),
        }));
    }
}

/// On a well-formed registry the cheapest listing is unique: whatever order
/// the registry is walked in, the same token is chosen.
pub proof fn lemma_cheapest_id_unique(reg: Seq<ListingV>, id1: Seq<char>, id2: Seq<char>)
    requires
        crate::sellable::state::registry_sorted(reg),
        is_cheapest(reg, id1),
        is_cheapest(reg, id2),
    ensures
        id1 == id2,
{
    lemma_find_listing_index(reg, id1);
    lemma_find_listing_index(reg, id2);
    let i = choose|i: int|
        0 <= i < reg.len() && (#[trigger] reg[i]) == find_listing(reg, id1).unwrap()
            && reg[i].token_id == id1;
    let j = choose|j: int|
        0 <= j < reg.len() && (#[trigger] reg[j]) == find_listing(reg, id2).unwrap()
            && reg[j].token_id == id2;
    crate::sellable::state::lemma_cheapest_unique(reg, i, j);
}

/// A `list` batch that offers any token for nothing is rejected whole: the
/// call fails and the registry is unchanged.
pub proof fn lemma_zero_price_rejected(
    reg0: Seq<ListingV>,
    reg1: Seq<ListingV>,
    toks: Seq<crate::token::TokenV>,
    sender: Seq<char>,
    items: Seq<(Seq<char>, CoinV)>,
    r: Result<(), ContractError>,
)
    requires
        list_post(reg0, reg1, toks, sender, items, r),
        exists|k: int| 0 <= k < items.len() && (#[trigger] items[k]).1.amount == 0,
    ensures
        r is Err,
        reg1 == reg0,
{
    let k = choose|k: int| 0 <= k < items.len() && (#[trigger] items[k]).1.amount == 0;
    assert(!list_item_ok(reg0, toks, sender, items[k].0, items[k].1));
}

/// Complete description of a `buy` call on one specific token: `reg0`/`toks0`
/// to `reg1`/`toks1`, with buyer `sender` and attached `funds`.
pub open spec fn buy_post(
    reg0: Seq<ListingV>,
    reg1: Seq<ListingV>,
    toks0: Seq<crate::token::TokenV>,
    toks1: Seq<crate::token::TokenV>,
    redeemable: Option<&Redeemable>,
    sender: Seq<char>,
    funds: Seq<Coin>,
    id: Seq<char>,
    r: Result<Settlement, ContractError>,
) -> bool {
    &&& registry_wf(reg1)
    &&& crate::token::tokens_sorted(toks1)
    &&& registry_covered(reg1, toks1)
    &&& (r is Ok <==> buy_ok(reg0, funds, id, redeemable))
    &&& match r {
        Ok(st) => {
            let price = find_listing(reg0, id).unwrap().price;
            &&& st.token_id@ == id
            &&& st.buyer@ == sender
            &&& st.seller@ == find_token(toks0, id).unwrap().owner
            &&& st.price@ == price
            &&& funds[0]@.amount == price.amount + st.refund
            &&& st.payments@.len() == (if st.refund > 0 {
                2int
            } else {
                1int
            })
            &&& st.payments@[0]@ == (PaymentV {
                to_address: find_token(toks0, id).unwrap().owner,
                amount: price,
            })
            &&& (st.refund > 0 ==> st.payments@[1]@ == (PaymentV {
                to_address: sender,
                amount: CoinV { denom: price.denom, amount: st.refund },
            }))
            &&& reg1.len() == reg0.len() - 1
            &&& find_listing(reg1, id) is None
            &&& forall|x: Seq<char>|
                x != id ==> #[trigger] find_listing(reg1, x) == find_listing(reg0, x)
            &&& toks1.len() == toks0.len()
            &&& find_token(toks1, id) == Some(
                crate::token::TokenV {
                    token_id: id,
                    owner: sender,
                    token_uri: find_token(toks0, id).unwrap().token_uri,
                },
            )
            &&& forall|x: Seq<char>|
                x != id ==> #[trigger] find_token(toks1, x) == find_token(toks0, x)
        },
        Err(e) => {
            &&& reg1 == reg0
            &&& toks1 == toks0
            &&& e == buy_err(reg0, funds, id, redeemable)
        },
    }
}

/// Checks one entry of a `list` batch against the registry and the ledger.
fn check_entry(
    listed_tokens: &Vec<Listing>,
    tokens: &Tokens,
    sender: &str,
    token_id: &str,
    price: &Coin,
) -> (r: Option<ContractError>)
    ensures
        r is None <==> list_item_ok(reg_view(listed_tokens@), tokens@, sender@, token_id@, price@),
        r is Some ==> r.unwrap() == list_item_err(
            reg_view(listed_tokens@),
            tokens@,
            sender@,
            token_id@,
            price@,
        ),
{
    if registry_index_of(listed_tokens, token_id).is_some() {
        return Some(ContractError::TokenAlreadyListed);
    }
    if price.amount == 0 {
        return Some(ContractError::InvalidListingPrice);
    }
    match tokens.find(token_id) {
        None => Some(ContractError::TokenIDNotFoundError),
        Some(t) => {
            if !str_eq(t.owner.as_str(), sender) {
                Some(ContractError::Unauthorized)
            } else {
                None
            }
        },
    }
}

/// Lists each entry of the batch, or rejects the whole batch on the first
/// unacceptable entry, leaving the registry unchanged.
pub fn list_helper(
    listed_tokens: &mut Vec<Listing>,
    tokens: &Tokens,
    sender: &str,
    listings: Vec<(String, Coin)>,
) -> (r: Result<(), ContractError>)
    requires
        registry_wf(reg_view(old(listed_tokens)@)),
        tokens.wf(),
        registry_covered(reg_view(old(listed_tokens)@), tokens@),
        entry_keys_distinct(entries_view(listings@)),
    ensures
        list_post(
            reg_view(old(listed_tokens)@),
            reg_view(final(listed_tokens)@),
            tokens@,
            sender@,
            entries_view(listings@),
            r,
        ),
{
    let ghost reg0 = reg_view(listed_tokens@);
    let ghost items = entries_view(listings@);
    let n = listings.len();
    let mut k: usize = 0;
    while k < n
        invariant
            k <= n,
            n == listings@.len(),
            *listed_tokens == *old(listed_tokens),
            reg0 == reg_view(listed_tokens@),
            items == entries_view(listings@),
            tokens.wf(),
            registry_wf(reg0),
            registry_covered(reg0, tokens@),
            forall|j: int|
                0 <= j < k ==> list_item_ok(
                    reg0,
                    tokens@,
                    sender@,
                    (#[trigger] items[j]).0,
                    items[j].1,
                ),
        decreases n - k,
    {
        if let Some(e) = check_entry(listed_tokens, tokens, sender, listings[k].0.as_str(), &listings[k].1) {
            proof {
                assert(items[k as int].0 == listings@[k as int].0@);
                assert(items[k as int].1 == listings@[k as int].1@);
                lemma_first_bad_entry(reg0, tokens@, sender@, items);
                assert(!list_item_ok(reg0, tokens@, sender@, items[k as int].0, items[k as int].1));
                assert(first_bad_entry(reg0, tokens@, sender@, items) == k as int);
            }
            return Err(e);
        }
        k = k + 1;
    }
    proof {
        lemma_first_bad_entry(reg0, tokens@, sender@, items);
    }
    insert_batch(listed_tokens, tokens, &listings);
    Ok(())
}

/// The registry after a seeded batch: each entry listed at its price, all
/// other listings untouched.
pub open spec fn batch_seeded(
    reg0: Seq<ListingV>,
    reg1: Seq<ListingV>,
    items: Seq<(Seq<char>, CoinV)>,
) -> bool {
    &&& reg1.len() == reg0.len() + items.len()
    &&& forall|id: Seq<char>|
        #[trigger] find_listing(reg1, id) == (match batch_find(items, id) {
            Some(p) => Some(ListingV { token_id: id, price: p }),
            None => find_listing(reg0, id),
        })
}

/// Seeds a batch of new listings for ids that are not yet listed, keeping
/// the registry well-formed and covered by the ledger.
pub fn insert_batch(
    listed_tokens: &mut Vec<Listing>,
    tokens: &Tokens,
    listings: &Vec<(String, Coin)>,
)
    requires
        registry_wf(reg_view(old(listed_tokens)@)),
        tokens.wf(),
        registry_covered(reg_view(old(listed_tokens)@), tokens@),
        entry_keys_distinct(entries_view(listings@)),
        forall|k: int|
            0 <= k < entries_view(listings@).len() ==> seed_item_ok(
                reg_view(old(listed_tokens)@),
                tokens@,
                (#[trigger] entries_view(listings@)[k]).0,
                entries_view(listings@)[k].1,
            ),
    ensures
        registry_wf(reg_view(final(listed_tokens)@)),
        registry_covered(reg_view(final(listed_tokens)@), tokens@),
        batch_seeded(reg_view(old(listed_tokens)@), reg_view(final(listed_tokens)@), entries_view(listings@)),
{
    let ghost reg0 = reg_view(listed_tokens@);
    let ghost items = entries_view(listings@);
    let n = listings.len();
    let mut k: usize = 0;
    proof {
        assert(items.take(0) =~= Seq::<(Seq<char>, CoinV)>::empty());
    }
    while k < n
        invariant
            k <= n,
            n == listings@.len(),
            items == entries_view(listings@),
            entry_keys_distinct(items),
            tokens.wf(),
            registry_wf(reg0),
            registry_covered(reg0, tokens@),
            registry_wf(reg_view(listed_tokens@)),
            registry_covered(reg_view(listed_tokens@), tokens@),
            reg_view(listed_tokens@).len() == reg0.len() + k,
            forall|j: int|
                0 <= j < n ==> seed_item_ok(
                    reg0,
                    tokens@,
                    (#[trigger] items[j]).0,
                    items[j].1,
                ),
            forall|id: Seq<char>|
                #[trigger] find_listing(reg_view(listed_tokens@), id) == (match batch_find(
                    items.take(k as int),
                    id,
                ) {
                    Some(p) => Some(ListingV { token_id: id, price: p }),
                    None => find_listing(reg0, id),
                }),
        decreases n - k,
    {
        let ghost regk = reg_view(listed_tokens@);
        let ghost idk = items[k as int].0;
        proof {
            // The id of entry k is listed neither originally nor by an
            // earlier entry of the batch.
            if batch_find(items.take(k as int), idk) is Some {
                lemma_batch_find_index(items.take(k as int), idk);
                let j = choose|j: int|
                    0 <= j < items.take(k as int).len() && (#[trigger] items.take(k as int)[j]).0
                        == idk;
                assert(items[j].0 == idk);
                assert(items[k as int].0 == idk);
                assert(false);
            }
            assert(find_listing(regk, idk) is None);
        }
        let l = Listing { token_id: listings[k].0.clone(), price: listings[k].1.clone() };
        registry_insert(listed_tokens, l);
        proof {
            let regk1 = reg_view(listed_tokens@);
            assert forall|id: Seq<char>|
                #[trigger] find_listing(regk1, id) == (match batch_find(
                    items.take(k as int + 1),
                    id,
                ) {
                    Some(p) => Some(ListingV { token_id: id, price: p }),
                    None => find_listing(reg0, id),
                }) by {
                lemma_batch_find_take_succ(items, k as int, id);
                if id != idk {
                    assert(find_listing(regk1, id) == find_listing(regk, id));
                }
            }
            assert forall|i: int| 0 <= i < regk1.len() implies has_token(
                tokens@,
                #[trigger] regk1[i].token_id,
            ) by {
                let id = regk1[i].token_id;
                lemma_sorted_find_at(regk1, i);
                if id != idk {
                    if batch_find(items.take(k as int), id) is Some {
                        lemma_batch_find_index(items.take(k as int), id);
                        let j = choose|j: int|
                            0 <= j < items.take(k as int).len() && (#[trigger] items.take(
                                k as int,
                            )[j]).0 == id;
                        assert(items[j].0 == id);
                    } else {
                        lemma_find_listing_index(regk, id);
                    }
                }
            }
        }
        k = k + 1;
    }
    proof {
        assert(items.take(n as int) =~= items);
    }
}

/// Delists a listed token on request of its owner.
pub fn delist_helper(
    listed_tokens: &mut Vec<Listing>,
    tokens: &Tokens,
    sender: &str,
    token_id: &str,
) -> (r: Result<(), ContractError>)
    requires
        registry_wf(reg_view(old(listed_tokens)@)),
        tokens.wf(),
        registry_covered(reg_view(old(listed_tokens)@), tokens@),
    ensures
        delist_post(
            reg_view(old(listed_tokens)@),
            reg_view(final(listed_tokens)@),
            tokens@,
            sender@,
            token_id@,
            r,
        ),
{
    let i = match registry_index_of(listed_tokens, token_id) {
        Some(i) => i,
        None => {
            return Err(ContractError::NoListedTokensError);
        },
    };
    match tokens.find(token_id) {
        None => Err(ContractError::TokenIDNotFoundError),
        Some(t) => {
            if str_eq(t.owner.as_str(), sender) {
                let ghost reg0 = reg_view(listed_tokens@);
                registry_remove(listed_tokens, i);
                proof {
                    let reg1 = reg_view(listed_tokens@);
                    assert forall|p: int| 0 <= p < reg1.len() implies has_token(
                        tokens@,
                        (#[trigger] reg1[p]).token_id,
                    ) by {
                        let id = reg1[p].token_id;
                        lemma_sorted_find_at(reg1, p);
                        assert(id != token_id@);
                        assert(find_listing(reg0, id) is Some);
                        lemma_find_listing_index(reg0, id);
                    }
                }
                Ok(())
            } else {
                Err(ContractError::Unauthorized)
            }
        },
    }
}

/// The id of the cheapest listing: globally minimal price amount, ties
/// broken by denomination, then token id, ascending.
pub fn get_lowest_item_helper(listed_tokens: &Vec<Listing>) -> (r: Result<String, ContractError>)
    requires
        registry_wf(reg_view(listed_tokens@)),
    ensures
        match r {
            Ok(id) => is_cheapest(reg_view(listed_tokens@), id@),
            Err(e) => reg_view(listed_tokens@).len() == 0 && e
                == ContractError::NoListedTokensError,
        },
{
    let ghost s = reg_view(listed_tokens@);
    let n = listed_tokens.len();
    if n == 0 {
        return Err(ContractError::NoListedTokensError);
    }
    let mut best: usize = 0;
    let mut j: usize = 1;
    while j < n
        invariant
            1 <= j <= n,
            best < j,
            n == s.len(),
            s == reg_view(listed_tokens@),
            registry_wf(s),
            forall|t: int|
                0 <= t < j && t != best ==> listing_before(s[best as int], #[trigger] s[t]),
        decreases n - j,
    {
        if listing_before_exec(&listed_tokens[j], &listed_tokens[best]) {
            proof {
                assert forall|t: int| 0 <= t < j + 1 && t != j implies listing_before(
                    s[j as int],
                    #[trigger] s[t],
                ) by {
                    if t != best {
                        lemma_listing_before_trans(s[j as int], s[best as int], s[t]);
                    }
                }
            }
            best = j;
        } else {
            proof {
                lemma_registry_distinct(s, best as int, j as int);
                lemma_listing_before_total(s[best as int], s[j as int]);
            }
        }
        j = j + 1;
    }
    proof {
        assert forall|t: int| 0 <= t < best implies (#[trigger] s[t].token_id)
            != s[best as int].token_id by {
            lemma_registry_distinct(s, t, best as int);
        }
        lemma_find_listing_at(s, s[best as int].token_id, best as int);
    }
    Ok(listed_tokens[best].token_id.clone())
}

/// Whether the lock gate (when configured) lets the token trade.
pub open spec fn lock_ok(redeemable: Option<&Redeemable>, id: Seq<char>) -> bool {
    match redeemable {
        Some(rd) => !has_str(rd@, id),
        None => true,
    }
}

/// Whether a purchase of the given token with the given funds goes through.
pub open spec fn buy_ok(
    reg: Seq<ListingV>,
    funds: Seq<Coin>,
    id: Seq<char>,
    redeemable: Option<&Redeemable>,
) -> bool {
    &&& funds.len() == 1
    &&& is_listed(reg, id)
    &&& funds[0]@.denom == find_listing(reg, id).unwrap().price.denom
    &&& funds[0]@.amount >= find_listing(reg, id).unwrap().price.amount
    &&& lock_ok(redeemable, id)
}

/// The error a rejected purchase draws, in the engine's order of checks.
pub open spec fn buy_err(
    reg: Seq<ListingV>,
    funds: Seq<Coin>,
    id: Seq<char>,
    redeemable: Option<&Redeemable>,
) -> ContractError {
    if funds.len() == 0 {
        ContractError::NoFundsPresent
    } else if funds.len() > 1 {
        ContractError::MultipleFundsError
    } else if !is_listed(reg, id) {
        ContractError::NoListedTokensError
    } else if funds[0]@.denom != find_listing(reg, id).unwrap().price.denom {
        ContractError::WrongFundError
    } else if funds[0]@.amount < find_listing(reg, id).unwrap().price.amount {
        ContractError::InsufficientFundsError {
            fund: funds[0]@.amount,
            seat_price: find_listing(reg, id).unwrap().price.amount,
        }
    } else {
        ContractError::TicketRedeemed
    }
}

/// The outcome of a settled purchase: who was paid what, and what was
/// refunded.
#[derive(Debug)]
pub struct Settlement {
    pub token_id: String,
    pub seller: String,
    pub buyer: String,
    pub price: Coin,
    pub refund: u128,
    pub payments: Vec<Payment>,
}

/// Settles the purchase of one specific listed token: validates the funds,
/// the listing and the lock gate, then moves ownership to the buyer, removes
/// the listing, and reports the payment to the seller and any refund.
pub fn buy_specific_item_helper(
    listed_tokens: &mut Vec<Listing>,
    tokens: &mut Tokens,
    redeemable: Option<&Redeemable>,
    sender: &str,
    funds: &Vec<Coin>,
    token_id: &str,
) -> (r: Result<Settlement, ContractError>)
    requires
        registry_wf(reg_view(old(listed_tokens)@)),
        old(tokens).wf(),
        registry_covered(reg_view(old(listed_tokens)@), old(tokens)@),
    ensures
        buy_post(
            reg_view(old(listed_tokens)@),
            reg_view(final(listed_tokens)@),
            old(tokens)@,
            final(tokens)@,
            redeemable,
            sender@,
            funds@,
            token_id@,
            r,
        ),
{
    let ghost reg0 = reg_view(listed_tokens@);
    if funds.len() == 0 {
        return Err(ContractError::NoFundsPresent);
    }
    if funds.len() > 1 {
        return Err(ContractError::MultipleFundsError);
    }
    let i = match registry_index_of(listed_tokens, token_id) {
        Some(i) => i,
        None => {
            return Err(ContractError::NoListedTokensError);
        },
    };
    let fund = &funds[0];
    if !str_eq(fund.denom.as_str(), listed_tokens[i].price.denom.as_str()) {
        return Err(ContractError::WrongFundError);
    }
    if fund.amount < listed_tokens[i].price.amount {
        return Err(ContractError::InsufficientFundsError {
            fund: fund.amount,
            seat_price: listed_tokens[i].price.amount,
        });
    }
    if let Some(rd) = redeemable {
        if rd.is_redeemed(token_id) {
            return Err(ContractError::TicketRedeemed);
        }
    }
    proof {
        lemma_find_listing_index(reg0, token_id@);
    }
    let seller = match tokens.find(token_id) {
        Some(t) => t.owner.clone(),
        None => {
            proof {
                assert(false);
            }
            String::new()
        },
    };
    let price = listed_tokens[i].price.clone();
    tokens.transfer(token_id, sender);
    registry_remove(listed_tokens, i);
    let refund = fund.amount - price.amount;
    let mut payments: Vec<Payment> = Vec::new();
    payments.push(Payment { to_address: seller.clone(), amount: price.clone() });
    if refund > 0 {
        payments.push(
            Payment {
                to_address: sender.to_owned(),
                amount: Coin { denom: price.denom.clone(), amount: refund },
            },
        );
    }
    let st = Settlement {
        token_id: token_id.to_owned(),
        seller,
        buyer: sender.to_owned(),
        price,
        refund,
        payments,
    };
    proof {
        // Token existence is preserved for every id, so the registry stays
        // covered by the ledger.
        assert forall|p: int| 0 <= p < reg_view(listed_tokens@).len() implies has_token(
            tokens@,
            #[trigger] reg_view(listed_tokens@)[p].token_id,
        ) by {
            let id = reg_view(listed_tokens@)[p].token_id;
            lemma_sorted_find_at(reg_view(listed_tokens@), p);
            assert(id != token_id@);
            assert(find_listing(reg0, id) is Some);
            lemma_find_listing_index(reg0, id);
        }
    }
    Ok(st)
}

} // verus!
