//! Primary sales: time-boxed, supply-capped minting rounds. The history is
//! append-only; a sale that ends is disabled, never deleted.

use vstd::prelude::*;

use crate::coin::{Coin, CoinV};

verus! {

/// One minting round.
#[derive(Debug)]
pub struct PrimarySale {
    /// Supply cap; `0` means unlimited.
    pub total_supply: u64,
    pub tokens_minted: u64,
    /// Start of the sale window, in seconds.
    pub start_time: u64,
    /// End of the sale window, in seconds; the window is `[start, end)`.
    pub end_time: u64,
    pub price: Coin,
    /// Whether the sale has ended (sold out, halted, or superseded).
    pub disabled: bool,
}

/// Mathematical value of a [`PrimarySale`].
pub struct PrimarySaleV {
    pub total_supply: int,
    pub tokens_minted: int,
    pub start_time: int,
    pub end_time: int,
    pub price: CoinV,
    pub disabled: bool,
}

impl View for PrimarySale {
    type V = PrimarySaleV;

    open spec fn view(&self) -> PrimarySaleV {
        PrimarySaleV {
            total_supply: self.total_supply as int,
            tokens_minted: self.tokens_minted as int,
            start_time: self.start_time as int,
            end_time: self.end_time as int,
            price: self.price@,
            disabled: self.disabled,
        }
    }
}

impl Clone for PrimarySale {
    fn clone(&self) -> (r: Self)
        ensures
            r@ == self@,
    {
        PrimarySale {
            total_supply: self.total_supply,
            tokens_minted: self.tokens_minted,
            start_time: self.start_time,
            end_time: self.end_time,
            price: self.price.clone(),
            disabled: self.disabled,
        }
    }
}

/// View of the sale history.
pub open spec fn sales_view(v: Seq<PrimarySale>) -> Seq<PrimarySaleV> {
    v.map_values(|s: PrimarySale| s@)
}

/// A sale's own invariant: the window is non-empty and, under a cap, the
/// mint count never passes the cap.
pub open spec fn sale_wf(s: PrimarySaleV) -> bool {
    &&& s.end_time > s.start_time
    &&& s.total_supply > 0 ==> s.tokens_minted <= s.total_supply
    &&& 0 <= s.tokens_minted
}

/// Every sale of the history is well-formed.
pub open spec fn sales_wf(h: Seq<PrimarySaleV>) -> bool {
    forall|i: int| 0 <= i < h.len() ==> sale_wf(#[trigger] h[i])
}

/// A sale that is running at `now`: not disabled, window entered and not
/// yet left.
pub open spec fn sale_active(s: PrimarySaleV, now: int) -> bool {
    !s.disabled && s.start_time <= now < s.end_time
}

/// A sale that `halt_sale` may disable: not disabled and not yet over.
pub open spec fn sale_haltable(s: PrimarySaleV, now: int) -> bool {
    !s.disabled && s.end_time > now
}

/// A sale that `buy_item` may serve: haltable, and with supply left (a cap
/// of `0` means unlimited).
pub open spec fn sale_eligible(s: PrimarySaleV, now: int) -> bool {
    &&& !s.disabled
    &&& s.end_time > now
    &&& (s.tokens_minted < s.total_supply || s.total_supply == 0)
}

/// Whether the closed ranges `[a_start, a_end]` and `[b_start, b_end]`
/// touch: an endpoint of one falls within the other, in either direction.
pub open spec fn ranges_overlap(a_start: int, a_end: int, b_start: int, b_end: int) -> bool {
    ||| b_start <= a_start <= b_end
    ||| b_start <= a_end <= b_end
    ||| a_start <= b_start <= a_end
    ||| a_start <= b_end <= a_end
}

/// For well-ordered ranges the four-cornered test is plain intersection.
pub proof fn lemma_ranges_overlap_iff(a_start: int, a_end: int, b_start: int, b_end: int)
    requires
        a_start <= a_end,
        b_start <= b_end,
    ensures
        ranges_overlap(a_start, a_end, b_start, b_end) <==> (a_start <= b_end && b_start <= a_end),
{
}

/// The new sale's window keeps clear of every non-disabled sale.
pub open spec fn no_window_overlap(h: Seq<PrimarySaleV>, start: int, end: int) -> bool {
    forall|i: int|
        0 <= i < h.len() && !(#[trigger] h[i]).disabled ==> !ranges_overlap(
            start,
            end,
            h[i].start_time,
            h[i].end_time,
        )
}

/// Index of the first sale satisfying `sale_haltable`, or the length.
pub open spec fn first_haltable(h: Seq<PrimarySaleV>, now: int) -> int
    decreases h.len(),
{
    if h.len() == 0 {
        0
    } else if sale_haltable(h[0], now) {
        0
    } else {
        1 + first_haltable(h.skip(1), now)
    }
}

pub proof fn lemma_first_haltable(h: Seq<PrimarySaleV>, now: int)
    ensures
        0 <= first_haltable(h, now) <= h.len(),
        forall|j: int| 0 <= j < first_haltable(h, now) ==> !sale_haltable(#[trigger] h[j], now),
        first_haltable(h, now) < h.len() ==> sale_haltable(h[first_haltable(h, now)], now),
    decreases h.len(),
{
    if h.len() > 0 && !sale_haltable(h[0], now) {
        lemma_first_haltable(h.skip(1), now);
        assert forall|j: int| 0 <= j < first_haltable(h, now) implies !sale_haltable(
            #[trigger] h[j],
            now,
        ) by {
            if j > 0 {
                assert(h.skip(1)[j - 1] == h[j]);
            }
        }
        if first_haltable(h, now) < h.len() {
            assert(h.skip(1)[first_haltable(h.skip(1), now)] == h[first_haltable(h, now)]);
        }
    }
}

/// Index of the first sale satisfying `sale_eligible`, or the length.
pub open spec fn first_eligible(h: Seq<PrimarySaleV>, now: int) -> int
    decreases h.len(),
{
    if h.len() == 0 {
        0
    } else if sale_eligible(h[0], now) {
        0
    } else {
        1 + first_eligible(h.skip(1), now)
    }
}

pub proof fn lemma_first_eligible(h: Seq<PrimarySaleV>, now: int)
    ensures
        0 <= first_eligible(h, now) <= h.len(),
        forall|j: int| 0 <= j < first_eligible(h, now) ==> !sale_eligible(#[trigger] h[j], now),
        first_eligible(h, now) < h.len() ==> sale_eligible(h[first_eligible(h, now)], now),
    decreases h.len(),
{
    if h.len() > 0 && !sale_eligible(h[0], now) {
        lemma_first_eligible(h.skip(1), now);
        assert forall|j: int| 0 <= j < first_eligible(h, now) implies !sale_eligible(
            #[trigger] h[j],
            now,
        ) by {
            if j > 0 {
                assert(h.skip(1)[j - 1] == h[j]);
            }
        }
        if first_eligible(h, now) < h.len() {
            assert(h.skip(1)[first_eligible(h.skip(1), now)] == h[first_eligible(h, now)]);
        }
    }
}

/// Index of the first sale satisfying `sale_active`, or the length.
pub open spec fn first_active(h: Seq<PrimarySaleV>, now: int) -> int
    decreases h.len(),
{
    if h.len() == 0 {
        0
    } else if sale_active(h[0], now) {
        0
    } else {
        1 + first_active(h.skip(1), now)
    }
}

pub proof fn lemma_first_active(h: Seq<PrimarySaleV>, now: int)
    ensures
        0 <= first_active(h, now) <= h.len(),
        forall|j: int| 0 <= j < first_active(h, now) ==> !sale_active(#[trigger] h[j], now),
        first_active(h, now) < h.len() ==> sale_active(h[first_active(h, now)], now),
    decreases h.len(),
{
    if h.len() > 0 && !sale_active(h[0], now) {
        lemma_first_active(h.skip(1), now);
        assert forall|j: int| 0 <= j < first_active(h, now) implies !sale_active(
            #[trigger] h[j],
            now,
        ) by {
            if j > 0 {
                assert(h.skip(1)[j - 1] == h[j]);
            }
        }
        if first_active(h, now) < h.len() {
            assert(h.skip(1)[first_active(h.skip(1), now)] == h[first_active(h, now)]);
        }
    }
}

/// Serving a purchase never drives the mint count past a positive cap, and
/// the sale that reaches its cap is disabled by that very purchase.
pub proof fn lemma_supply_cap(s: PrimarySaleV, now: int)
    requires
        sale_wf(s),
        sale_eligible(s, now),
    ensures
        sale_wf(bumped(s)),
        bumped(s).total_supply > 0 ==> bumped(s).tokens_minted <= bumped(s).total_supply,
        bumped(s).total_supply > 0 && bumped(s).tokens_minted == bumped(s).total_supply ==> bumped(
            s,
        ).disabled,
{
}

/// Two sequential, non-overlapping windows both pass the overlap check: a
/// sale just scheduled does not bar a later one whose window keeps clear of
/// it and of every other non-disabled sale.
pub proof fn lemma_sequential_windows(
    h0: Seq<PrimarySaleV>,
    s1: PrimarySaleV,
    start2: int,
    end2: int,
)
    requires
        no_window_overlap(h0, start2, end2),
        !ranges_overlap(start2, end2, s1.start_time, s1.end_time),
    ensures
        no_window_overlap(h0.push(s1), start2, end2),
{
    let h1 = h0.push(s1);
    assert forall|i: int| 0 <= i < h1.len() && !(#[trigger] h1[i]).disabled implies !ranges_overlap(
        start2,
        end2,
        h1[i].start_time,
        h1[i].end_time,
    ) by {
        if i < h0.len() {
            assert(h1[i] == h0[i]);
        } else {
            assert(h1[i] == s1);
        }
    }
}

/// A halted sale: the same sale, disabled.
pub open spec fn halted(s: PrimarySaleV) -> PrimarySaleV {
    PrimarySaleV { disabled: true, ..s }
}

/// A sale after one purchase: one more token minted, and the sale disabled
/// the moment a positive cap is reached.
pub open spec fn bumped(s: PrimarySaleV) -> PrimarySaleV {
    PrimarySaleV {
        tokens_minted: s.tokens_minted + 1,
        disabled: s.disabled || s.tokens_minted + 1 == s.total_supply,
        ..s
    }
}

} // verus!
