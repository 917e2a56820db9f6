//! The listing registry: at most one listing per token id, every price
//! positive, records kept sorted by token id.

use vstd::prelude::*;

use crate::coin::{Coin, CoinV};
use crate::lex::{lex_lt, lemma_lex_asym, lemma_lex_irrefl, lemma_lex_total, lemma_lex_trans,
    str_eq, str_lt};

verus! {

/// An offer to sell a specific token at a fixed price.
#[derive(Debug)]
pub struct Listing {
    pub token_id: String,
    pub price: Coin,
}

/// Mathematical value of a [`Listing`].
pub struct ListingV {
    pub token_id: Seq<char>,
    pub price: CoinV,
}

impl View for Listing {
    type V = ListingV;

    open spec fn view(&self) -> ListingV {
        ListingV { token_id: self.token_id@, price: self.price@ }
    }
}

impl Clone for Listing {
    fn clone(&self) -> (l: Self)
        ensures
            l@ == self@,
    {
        Listing { token_id: self.token_id.clone(), price: self.price.clone() }
    }
}

/// View of the registry vector as a sequence of listing values.
pub open spec fn reg_view(v: Seq<Listing>) -> Seq<ListingV> {
    v.map_values(|l: Listing| l@)
}

/// Registry records are strictly ordered by token id.
pub open spec fn registry_sorted(s: Seq<ListingV>) -> bool {
    forall|i: int, j: int|
        0 <= i < j < s.len() ==> lex_lt(#[trigger] s[i].token_id, #[trigger] s[j].token_id)
}

/// Every listed price is positive.
pub open spec fn registry_priced(s: Seq<ListingV>) -> bool {
    forall|i: int| 0 <= i < s.len() ==> (#[trigger] s[i].price.amount) > 0
}

/// Well-formed registry: sorted by id (hence one listing per id) and every
/// price positive.
pub open spec fn registry_wf(s: Seq<ListingV>) -> bool {
    registry_sorted(s) && registry_priced(s)
}

/// Every listed token exists in the token ledger.
pub open spec fn registry_covered(s: Seq<ListingV>, toks: Seq<crate::token::TokenV>) -> bool {
    forall|i: int| 0 <= i < s.len() ==> crate::token::has_token(toks, (#[trigger] s[i]).token_id)
}

/// The first listing with the given id, if any.
pub open spec fn find_listing(s: Seq<ListingV>, id: Seq<char>) -> Option<ListingV>
    decreases s.len(),
{
    if s.len() == 0 {
        None
    } else if s[0].token_id == id {
        Some(s[0])
    } else {
        find_listing(s.skip(1), id)
    }
}

/// Whether a listing with the given id exists.
pub open spec fn is_listed(s: Seq<ListingV>, id: Seq<char>) -> bool {
    find_listing(s, id) is Some
}

/// The deterministic tie-break order on listings: price amount ascending,
/// then price denomination ascending, then token id ascending.
pub open spec fn listing_before(a: ListingV, b: ListingV) -> bool {
    ||| a.price.amount < b.price.amount
    ||| (a.price.amount == b.price.amount && lex_lt(a.price.denom, b.price.denom))
    ||| (a.price.amount == b.price.amount && a.price.denom == b.price.denom && lex_lt(
        a.token_id,
        b.token_id,
    ))
}

/// The tie-break order relates any two listings with distinct ids.
pub proof fn lemma_listing_before_total(a: ListingV, b: ListingV)
    requires
        a.token_id != b.token_id,
    ensures
        listing_before(a, b) || listing_before(b, a),
{
    if a.price.amount == b.price.amount {
        if !lex_lt(a.price.denom, b.price.denom) && !lex_lt(b.price.denom, a.price.denom) {
            lemma_lex_total(a.price.denom, b.price.denom);
            if !lex_lt(a.token_id, b.token_id) && !lex_lt(b.token_id, a.token_id) {
                lemma_lex_total(a.token_id, b.token_id);
            }
        }
    }
}

/// The tie-break order is transitive.
pub proof fn lemma_listing_before_trans(a: ListingV, b: ListingV, c: ListingV)
    requires
        listing_before(a, b),
        listing_before(b, c),
    ensures
        listing_before(a, c),
{
    if a.price.amount == b.price.amount && b.price.amount == c.price.amount {
        if lex_lt(a.price.denom, b.price.denom) && lex_lt(b.price.denom, c.price.denom) {
            lemma_lex_trans(a.price.denom, b.price.denom, c.price.denom);
        } else if a.price.denom == b.price.denom && b.price.denom == c.price.denom {
            lemma_lex_trans(a.token_id, b.token_id, c.token_id);
        }
    }
}

/// The tie-break order is asymmetric.
pub proof fn lemma_listing_before_asym(a: ListingV, b: ListingV)
    requires
        listing_before(a, b),
    ensures
        !listing_before(b, a),
{
    if a.price.amount == b.price.amount {
        if lex_lt(a.price.denom, b.price.denom) {
            lemma_lex_asym(a.price.denom, b.price.denom);
        } else if a.price.denom == b.price.denom {
            lemma_lex_asym(a.token_id, b.token_id);
        }
    }
}

/// The minimal listing under the tie-break order is unique: selection does
/// not depend on the order in which the registry is walked.
pub proof fn lemma_cheapest_unique(s: Seq<ListingV>, i: int, j: int)
    requires
        registry_sorted(s),
        0 <= i < s.len(),
        0 <= j < s.len(),
        forall|t: int| 0 <= t < s.len() && s[t].token_id != s[i].token_id ==> listing_before(
            s[i],
            #[trigger] s[t],
        ),
        forall|t: int| 0 <= t < s.len() && s[t].token_id != s[j].token_id ==> listing_before(
            s[j],
            #[trigger] s[t],
        ),
    ensures
        i == j,
{
    if i != j {
        lemma_registry_distinct(s, i, j);
        assert(listing_before(s[i], s[j]));
        assert(listing_before(s[j], s[i]));
        lemma_listing_before_asym(s[i], s[j]);
    }
}

/// Compares two listings under the tie-break order.
pub fn listing_before_exec(a: &Listing, b: &Listing) -> (r: bool)
    ensures
        r == listing_before(a@, b@),
{
    if a.price.amount < b.price.amount {
        return true;
    }
    if a.price.amount > b.price.amount {
        return false;
    }
    if str_lt(a.price.denom.as_str(), b.price.denom.as_str()) {
        return true;
    }
    if str_lt(b.price.denom.as_str(), a.price.denom.as_str()) {
        proof {
            lemma_lex_asym(b@.price.denom, a@.price.denom);
        }
        return false;
    }
    proof {
        lemma_lex_total(a@.price.denom, b@.price.denom);
    }
    str_lt(a.token_id.as_str(), b.token_id.as_str())
}

pub proof fn lemma_registry_distinct(s: Seq<ListingV>, i: int, j: int)
    requires
        registry_sorted(s),
        0 <= i < s.len(),
        0 <= j < s.len(),
        i != j,
    ensures
        s[i].token_id != s[j].token_id,
{
    if i < j {
        lemma_lex_irrefl(s[i].token_id);
    } else {
        lemma_lex_irrefl(s[j].token_id);
    }
}

/// `find_listing` returns the record at any index whose predecessors miss the id.
pub proof fn lemma_find_listing_at(s: Seq<ListingV>, id: Seq<char>, i: int)
    requires
        0 <= i < s.len(),
        s[i].token_id == id,
        forall|j: int| 0 <= j < i ==> (#[trigger] s[j].token_id) != id,
    ensures
        find_listing(s, id) == Some(s[i]),
    decreases i,
{
    if i > 0 {
        lemma_find_listing_at(s.skip(1), id, i - 1);
    }
}

/// On a sorted registry, `find_listing` returns the record at its index.
pub proof fn lemma_sorted_find_at(s: Seq<ListingV>, i: int)
    requires
        registry_sorted(s),
        0 <= i < s.len(),
    ensures
        find_listing(s, s[i].token_id) == Some(s[i]),
{
    assert forall|j: int| 0 <= j < i implies (#[trigger] s[j].token_id) != s[i].token_id by {
        lemma_registry_distinct(s, j, i);
    }
    lemma_find_listing_at(s, s[i].token_id, i);
}

/// `find_listing` misses an id that no record carries.
pub proof fn lemma_find_listing_none(s: Seq<ListingV>, id: Seq<char>)
    requires
        forall|j: int| 0 <= j < s.len() ==> (#[trigger] s[j].token_id) != id,
    ensures
        find_listing(s, id) is None,
    decreases s.len(),
{
    if s.len() > 0 {
        lemma_find_listing_none(s.skip(1), id);
    }
}

/// A found listing stands at some index.
pub proof fn lemma_find_listing_index(s: Seq<ListingV>, id: Seq<char>)
    requires
        find_listing(s, id) is Some,
    ensures
        exists|i: int|
            0 <= i < s.len() && (#[trigger] s[i]) == find_listing(s, id).unwrap() && s[i].token_id
                == id,
    decreases s.len(),
{
    if s.len() > 0 {
        if s[0].token_id == id {
            assert(s[0] == find_listing(s, id).unwrap());
        } else {
            lemma_find_listing_index(s.skip(1), id);
            let i = choose|i: int|
                0 <= i < s.skip(1).len() && (#[trigger] s.skip(1)[i]) == find_listing(
                    s.skip(1),
                    id,
                ).unwrap() && s.skip(1)[i].token_id == id;
            assert(s[i + 1] == s.skip(1)[i]);
        }
    }
}

/// Inserting a record does not change what `find_listing` returns for other ids.
pub proof fn lemma_find_listing_insert_frame(s: Seq<ListingV>, l: ListingV, k: int, id: Seq<char>)
    requires
        0 <= k <= s.len(),
        id != l.token_id,
    ensures
        find_listing(s.insert(k, l), id) == find_listing(s, id),
    decreases k,
{
    let s2 = s.insert(k, l);
    if k == 0 {
        assert(s2.skip(1) =~= s);
    } else {
        if s.len() > 0 && s[0].token_id == id {
        } else {
            lemma_find_listing_insert_frame(s.skip(1), l, k - 1, id);
            assert(s2.skip(1) =~= s.skip(1).insert(k - 1, l));
        }
    }
}

/// After inserting a record whose id is absent from the prefix before it,
/// `find_listing` returns that record for its id.
pub proof fn lemma_find_listing_insert_self(s: Seq<ListingV>, l: ListingV, k: int)
    requires
        0 <= k <= s.len(),
        forall|j: int| 0 <= j < k ==> (#[trigger] s[j].token_id) != l.token_id,
    ensures
        find_listing(s.insert(k, l), l.token_id) == Some(l),
{
    let s2 = s.insert(k, l);
    assert(forall|j: int| 0 <= j < k ==> (#[trigger] s2[j].token_id) != l.token_id);
    lemma_find_listing_at(s2, l.token_id, k);
}

/// Removing the record at an index changes `find_listing` only for its id,
/// which afterwards misses, provided ids are distinct.
pub proof fn lemma_find_listing_remove(s: Seq<ListingV>, k: int, id: Seq<char>)
    requires
        0 <= k < s.len(),
        forall|i: int, j: int|
            0 <= i < s.len() && 0 <= j < s.len() && i != j ==> (#[trigger] s[i].token_id)
                != (#[trigger] s[j].token_id),
    ensures
        find_listing(s.remove(k), s[k].token_id) is None,
        id != s[k].token_id ==> find_listing(s.remove(k), id) == find_listing(s, id),
    decreases k,
{
    let s2 = s.remove(k);
    s.remove_ensures(k);
    assert forall|j: int| 0 <= j < s2.len() implies (#[trigger] s2[j].token_id)
        != s[k].token_id by {
        if j < k {
        } else {
            assert(s2[j] == s[j + 1]);
        }
    }
    lemma_find_listing_none(s2, s[k].token_id);
    if id != s[k].token_id {
        if k == 0 {
            assert(s2 =~= s.skip(1));
        } else if s[0].token_id == id {
            assert(s2[0] == s[0]);
        } else {
            assert forall|i: int, j: int|
                0 <= i < s.skip(1).len() && 0 <= j < s.skip(1).len() && i != j implies (
            #[trigger] s.skip(1)[i].token_id) != (#[trigger] s.skip(1)[j].token_id) by {
                assert(s.skip(1)[i] == s[i + 1]);
                assert(s.skip(1)[j] == s[j + 1]);
            }
            lemma_find_listing_remove(s.skip(1), k - 1, id);
            assert(s2.skip(1) =~= s.skip(1).remove(k - 1));
            assert(s2[0] == s[0]);
            assert(s.skip(1)[k - 1] == s[k]);
        }
    }
}

/// Index of the listing with the given id, if any.
pub fn registry_index_of(v: &Vec<Listing>, token_id: &str) -> (r: Option<usize>)
    ensures
        match r {
            Some(i) => i < reg_view(v@).len() && reg_view(v@)[i as int].token_id == token_id@
                && find_listing(reg_view(v@), token_id@) == Some(reg_view(v@)[i as int]),
            None => find_listing(reg_view(v@), token_id@) is None,
        },
{
    let n = v.len();
    let mut i: usize = 0;
    while i < n
        invariant
            i <= n,
            n == v@.len(),
            forall|j: int| 0 <= j < i ==> (#[trigger] reg_view(v@)[j].token_id) != token_id@,
        decreases n - i,
    {
        if str_eq(v[i].token_id.as_str(), token_id) {
            proof {
                lemma_find_listing_at(reg_view(v@), token_id@, i as int);
            }
            return Some(i);
        }
        i = i + 1;
    }
    proof {
        lemma_find_listing_none(reg_view(v@), token_id@);
    }
    None
}

/// First position whose listing id is not below the given id.
fn registry_lower_bound(v: &Vec<Listing>, token_id: &str) -> (i: usize)
    ensures
        i <= reg_view(v@).len(),
        forall|j: int| 0 <= j < i ==> lex_lt(#[trigger] reg_view(v@)[j].token_id, token_id@),
        i < reg_view(v@).len() ==> !lex_lt(reg_view(v@)[i as int].token_id, token_id@),
{
    let n = v.len();
    let mut i: usize = 0;
    loop
        invariant
            i <= n,
            n == v@.len(),
            forall|j: int| 0 <= j < i ==> lex_lt(#[trigger] reg_view(v@)[j].token_id, token_id@),
        decreases n - i,
    {
        if i == n {
            return i;
        }
        if !str_lt(v[i].token_id.as_str(), token_id) {
            return i;
        }
        i = i + 1;
    }
}

/// Inserts a listing for an id that is not yet listed, keeping the registry
/// well-formed.
pub fn registry_insert(v: &mut Vec<Listing>, l: Listing)
    requires
        registry_wf(reg_view(old(v)@)),
        !is_listed(reg_view(old(v)@), l.token_id@),
        l@.price.amount > 0,
    ensures
        registry_wf(reg_view(final(v)@)),
        reg_view(final(v)@).len() == reg_view(old(v)@).len() + 1,
        find_listing(reg_view(final(v)@), l.token_id@) == Some(l@),
        forall|id: Seq<char>|
            id != l.token_id@ ==> #[trigger] find_listing(reg_view(final(v)@), id) == find_listing(
                reg_view(old(v)@),
                id,
            ),
{
    let ghost s0 = reg_view(v@);
    let ghost lv = l@;
    let n = v.len();
    let i = registry_lower_bound(v, l.token_id.as_str());
    proof {
        assert forall|j: int| 0 <= j < i implies (#[trigger] s0[j].token_id) != lv.token_id by {
            lemma_lex_irrefl(s0[j].token_id);
        }
        if i < s0.len() {
            if s0[i as int].token_id == lv.token_id {
                lemma_find_listing_at(s0, lv.token_id, i as int);
                assert(false);
            }
            if !lex_lt(lv.token_id, s0[i as int].token_id) {
                lemma_lex_total(s0[i as int].token_id, lv.token_id);
                assert(false);
            }
        }
        assert forall|j: int| i <= j < s0.len() implies lex_lt(
            lv.token_id,
            #[trigger] s0[j].token_id,
        ) by {
            if j > i {
                lemma_lex_trans(lv.token_id, s0[i as int].token_id, s0[j].token_id);
            }
        }
    }
    let ghost pos = i as int;
    v.insert(i, l);
    proof {
        assert(reg_view(v@) =~= s0.insert(pos, lv));
        s0.insert_ensures(pos, lv);
        let s2 = reg_view(v@);
        assert forall|p: int, q: int| 0 <= p < q < s2.len() implies lex_lt(
            #[trigger] s2[p].token_id,
            #[trigger] s2[q].token_id,
        ) by {
            if p < pos && q < pos {
            } else if p < pos && q == pos {
            } else if p == pos {
                assert(s2[q] == s0[q - 1]);
            } else if p < pos {
                assert(s2[q] == s0[q - 1]);
            } else {
                assert(s2[p] == s0[p - 1]);
                assert(s2[q] == s0[q - 1]);
            }
        }
        assert forall|p: int| 0 <= p < s2.len() implies (#[trigger] s2[p].price.amount) > 0 by {
            if p < pos {
            } else if p == pos {
            } else {
                assert(s2[p] == s0[p - 1]);
            }
        }
        lemma_find_listing_insert_self(s0, lv, pos);
        assert forall|id: Seq<char>| id != lv.token_id implies #[trigger] find_listing(s2, id)
            == find_listing(s0, id) by {
            lemma_find_listing_insert_frame(s0, lv, pos, id);
        }
    }
}

/// Removes the listing at a known index.
pub fn registry_remove(v: &mut Vec<Listing>, i: usize)
    requires
        registry_wf(reg_view(old(v)@)),
        i < old(v)@.len(),
    ensures
        registry_wf(reg_view(final(v)@)),
        reg_view(final(v)@).len() == reg_view(old(v)@).len() - 1,
        find_listing(reg_view(final(v)@), reg_view(old(v)@)[i as int].token_id) is None,
        forall|id: Seq<char>|
            id != reg_view(old(v)@)[i as int].token_id ==> #[trigger] find_listing(
                reg_view(final(v)@),
                id,
            ) == find_listing(reg_view(old(v)@), id),
{
    let ghost s0 = reg_view(v@);
    let ghost pos = i as int;
    let _ = v.remove(i);
    proof {
        assert(reg_view(v@) =~= s0.remove(pos));
        s0.remove_ensures(pos);
        let s2 = reg_view(v@);
        assert forall|p: int, q: int| 0 <= p < q < s2.len() implies lex_lt(
            #[trigger] s2[p].token_id,
            #[trigger] s2[q].token_id,
        ) by {
            if p < pos && q < pos {
            } else if p < pos {
                assert(s2[q] == s0[q + 1]);
            } else {
                assert(s2[p] == s0[p + 1]);
                assert(s2[q] == s0[q + 1]);
            }
        }
        assert forall|p: int| 0 <= p < s2.len() implies (#[trigger] s2[p].price.amount) > 0 by {
            if p >= pos {
                assert(s2[p] == s0[p + 1]);
            }
        }
        assert forall|p: int, q: int|
            0 <= p < s0.len() && 0 <= q < s0.len() && p != q implies (#[trigger] s0[p].token_id)
            != (#[trigger] s0[q].token_id) by {
            lemma_registry_distinct(s0, p, q);
        }
        lemma_find_listing_remove(s0, pos, s0[pos].token_id);
        assert forall|id: Seq<char>| id != s0[pos].token_id implies #[trigger] find_listing(
            s2,
            id,
        ) == find_listing(s0, id) by {
            lemma_find_listing_remove(s0, pos, id);
        }
    }
}

} // verus!
