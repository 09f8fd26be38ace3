use vstd::prelude::*;

use crate::wide::le_prod;

verus! {

/// One venue's successfully observed price for a pair in one cycle: the
/// venue's identifier, the normalized price (18 fractional decimal digits),
/// and the block the observation belongs to.
#[derive(Clone, Copy, Debug, PartialEq, Eq, Structural)]
pub struct VenueQuote {
    pub venue: u64,
    pub price: u128,
    pub block: u64,
}

/// What the detector concluded for one pair in one cycle.
#[derive(Clone, Copy, Debug, PartialEq, Eq, Structural)]
pub enum FindingDetail {
    /// Fewer than two venues produced a usable quote; nothing to compare.
    InsufficientData,
    /// The best and worst prices agree within the configured tolerance.
    NoOpportunity,
    /// Buy where it is cheap, sell where it is dear: `low` and `high` are the
    /// extreme prices among the quotes, and the spread ratio is exactly
    /// `high / low`.
    Opportunity { buy_venue: u64, sell_venue: u64, low: u128, high: u128 },
}

/// What the detector found, together with the pair it is about.
pub struct Finding {
    pub pair: String,
    pub detail: FindingDetail,
}

/// Index of the first quote holding the maximum price.
pub open spec fn argmax(s: Seq<VenueQuote>) -> int
    recommends
        s.len() > 0,
    decreases s.len(),
{
    if s.len() <= 1 {
        0
    } else {
        let a = argmax(s.drop_last());
        if s.last().price > s[a].price {
            s.len() - 1
        } else {
            a
        }
    }
}

/// Index of the first quote holding the minimum price.
pub open spec fn argmin(s: Seq<VenueQuote>) -> int
    recommends
        s.len() > 0,
    decreases s.len(),
{
    if s.len() <= 1 {
        0
    } else {
        let a = argmin(s.drop_last());
        if s.last().price < s[a].price {
            s.len() - 1
        } else {
            a
        }
    }
}

pub proof fn lemma_argmax_bounds(s: Seq<VenueQuote>)
    requires
        s.len() > 0,
    ensures
        0 <= argmax(s) < s.len(),
        forall|j: int| 0 <= j < s.len() ==> #[trigger] s[j].price <= s[argmax(s)].price,
    decreases s.len(),
{
    if s.len() > 1 {
        lemma_argmax_bounds(s.drop_last());
        assert forall|j: int| 0 <= j < s.len() implies #[trigger] s[j].price <= s[argmax(
            s,
        )].price by {
            if j < s.len() - 1 {
                assert(s.drop_last()[j].price <= s.drop_last()[argmax(s.drop_last())].price);
            }
        }
    }
}

pub proof fn lemma_argmin_bounds(s: Seq<VenueQuote>)
    requires
        s.len() > 0,
    ensures
        0 <= argmin(s) < s.len(),
        forall|j: int| 0 <= j < s.len() ==> #[trigger] s[j].price >= s[argmin(s)].price,
    decreases s.len(),
{
    if s.len() > 1 {
        lemma_argmin_bounds(s.drop_last());
        assert forall|j: int| 0 <= j < s.len() implies #[trigger] s[j].price >= s[argmin(
            s,
        )].price by {
            if j < s.len() - 1 {
                assert(s.drop_last()[j].price >= s.drop_last()[argmin(s.drop_last())].price);
            }
        }
    }
}

/// The exact relative-tolerance test: `high` and `low` count as equal when
/// `(high - low) / low <= eps_num / eps_den`, cross-multiplied so no division
/// is involved.
pub open spec fn within_tolerance(high: int, low: int, eps_num: int, eps_den: int) -> bool
    recommends
        low <= high,
        eps_den > 0,
{
    (high - low) * eps_den <= low * eps_num
}

/// The detector's conclusion as a function of the quotes and the tolerance:
/// fewer than two quotes is insufficient data; otherwise the extreme prices
/// are compared, and their venues (first occurrence each) name the trade.
pub open spec fn compare_spec(s: Seq<VenueQuote>, eps_num: int, eps_den: int) -> FindingDetail {
    if s.len() < 2 {
        FindingDetail::InsufficientData
    } else {
        let hi = s[argmax(s)].price;
        let lo = s[argmin(s)].price;
        if within_tolerance(hi as int, lo as int, eps_num, eps_den) {
            FindingDetail::NoOpportunity
        } else {
            FindingDetail::Opportunity {
                buy_venue: s[argmin(s)].venue,
                sell_venue: s[argmax(s)].venue,
                low: lo,
                high: hi,
            }
        }
    }
}

/// Compares one pair's quotes across all venues that answered this cycle and
/// reports the best arbitrage direction, no opportunity, or insufficient
/// data, exactly as `compare_spec` states.
pub fn compare(pair: String, quotes: &Vec<VenueQuote>, eps_num: u64, eps_den: u64) -> (f: Finding)
    requires
        eps_den > 0,
    ensures
        f.pair@ == pair@,
        f.detail == compare_spec(quotes@, eps_num as int, eps_den as int),
{
    if quotes.len() < 2 {
        return Finding { pair, detail: FindingDetail::InsufficientData };
    }
    let ghost s = quotes@;
    let mut imax: usize = 0;
    let mut imin: usize = 0;
    let mut i: usize = 1;
    while i < quotes.len()
        invariant
            1 <= i <= s.len(),
            s == quotes@,
            imax == argmax(s.take(i as int)),
            imin == argmin(s.take(i as int)),
        decreases s.len() - i,
    {
        proof {
            lemma_argmax_bounds(s.take(i as int));
            lemma_argmin_bounds(s.take(i as int));
            assert(s.take(i + 1).drop_last() =~= s.take(i as int));
            assert(s.take(i + 1).last() == s[i as int]);
        }
        if quotes[i].price > quotes[imax].price {
            imax = i;
        }
        if quotes[i].price < quotes[imin].price {
            imin = i;
        }
        i = i + 1;
    }
    proof {
        assert(s.take(s.len() as int) =~= s);
        lemma_argmax_bounds(s);
        lemma_argmin_bounds(s);
    }
    let high = quotes[imax].price;
    let low = quotes[imin].price;
    let within = le_prod(high - low, eps_den, low, eps_num);
    if within {
        Finding { pair, detail: FindingDetail::NoOpportunity }
    } else {
        Finding {
            pair,
            detail: FindingDetail::Opportunity {
                buy_venue: quotes[imin].venue,
                sell_venue: quotes[imax].venue,
                low,
                high,
            },
        }
    }
}

impl FindingDetail {
    /// The opportunity's premium in basis points, rounded down:
    /// floor((high - low) * 10000 / low).  Nothing is returned when the
    /// finding is not an opportunity, when the low price is zero, or when the
    /// scaled difference exceeds the 128-bit range.
    pub fn premium_bp(&self) -> (r: Option<u128>)
        ensures
            r == (match *self {
                FindingDetail::Opportunity { low, high, .. } => {
                    if 0 < low <= high && (high - low) * 10000 <= u128::MAX {
                        Some((((high - low) * 10000) / (low as int)) as u128)
                    } else {
                        None::<u128>
                    }
                },
                _ => None::<u128>,
            }),
    {
        match *self {
            FindingDetail::Opportunity { low, high, .. } => {
                if low == 0 || high < low {
                    return None;
                }
                let diff = high - low;
                if diff > u128::MAX / 10000 {
                    return None;
                }
                Some(diff * 10000 / low)
            },
            _ => None,
        }
    }
}

/// For exactly two quotes, the extreme indices spelled out: the later quote
/// wins only by a strict inequality, so ties go to the first venue listed.
proof fn lemma_two_quote_extremes(q1: VenueQuote, q2: VenueQuote)
    ensures
        argmax(seq![q1, q2]) == (if q2.price > q1.price { 1int } else { 0int }),
        argmin(seq![q1, q2]) == (if q2.price < q1.price { 1int } else { 0int }),
{
    let s = seq![q1, q2];
    assert(s.drop_last() =~= seq![q1]);
    assert(argmax(seq![q1]) == 0);
    assert(argmin(seq![q1]) == 0);
    assert(s.last() == q2 && s[0] == q1);
}

/// Equal prices on two venues never yield an opportunity: an equal pair has
/// zero relative spread, which lies within every nonnegative tolerance.
pub proof fn lemma_equal_prices_no_opportunity(
    q1: VenueQuote,
    q2: VenueQuote,
    eps_num: int,
    eps_den: int,
)
    requires
        q1.price == q2.price,
        eps_num >= 0,
        eps_den > 0,
    ensures
        compare_spec(seq![q1, q2], eps_num, eps_den) == FindingDetail::NoOpportunity,
{
    let s = seq![q1, q2];
    lemma_two_quote_extremes(q1, q2);
    let p = q1.price as int;
    assert(p * eps_num >= 0) by (nonlinear_arith)
        requires
            p >= 0,
            eps_num >= 0,
    ;
}

/// Two venue prices that differ by more than the tolerance always yield an
/// opportunity whose spread ratio lies above one (`high > low`) and whose buy
/// side is the venue with the lower price.
pub proof fn lemma_distinct_prices_yield_opportunity(
    q1: VenueQuote,
    q2: VenueQuote,
    eps_num: int,
    eps_den: int,
)
    requires
        q1.price != q2.price,
        eps_num >= 0,
        eps_den > 0,
        !within_tolerance(
            if q1.price > q2.price { q1.price as int } else { q2.price as int },
            if q1.price > q2.price { q2.price as int } else { q1.price as int },
            eps_num,
            eps_den,
        ),
    ensures
        compare_spec(seq![q1, q2], eps_num, eps_den) == (FindingDetail::Opportunity {
            buy_venue: if q1.price < q2.price { q1.venue } else { q2.venue },
            sell_venue: if q1.price < q2.price { q2.venue } else { q1.venue },
            low: if q1.price < q2.price { q1.price } else { q2.price },
            high: if q1.price < q2.price { q2.price } else { q1.price },
        }),
        (compare_spec(seq![q1, q2], eps_num, eps_den) matches FindingDetail::Opportunity {
            low, high, .. } ==> low < high),
{
    let s = seq![q1, q2];
    lemma_two_quote_extremes(q1, q2);
}

/// Every opportunity the detector reports has its spread ratio strictly
/// above one: the sell-side price exceeds the buy-side price, whatever the
/// number of venues compared and whatever nonnegative tolerance is set.
pub proof fn lemma_opportunity_spread_above_one(s: Seq<VenueQuote>, eps_num: int, eps_den: int)
    requires
        eps_num >= 0,
        eps_den > 0,
    ensures
        (compare_spec(s, eps_num, eps_den) matches FindingDetail::Opportunity {
            low, high, .. } ==> low < high),
{
    if s.len() >= 2 {
        lemma_argmax_bounds(s);
        lemma_argmin_bounds(s);
        let hi = s[argmax(s)].price as int;
        let lo = s[argmin(s)].price as int;
        assert(lo <= hi);
        if !within_tolerance(hi, lo, eps_num, eps_den) {
            if lo == hi {
                assert((hi - lo) * eps_den == 0) by (nonlinear_arith)
                    requires
                        hi == lo,
                ;
                assert(lo * eps_num >= 0) by (nonlinear_arith)
                    requires
                        lo >= 0,
                        eps_num >= 0,
                ;
                assert(false);
            }
        }
    }
}

/// Swapping the order in which two venues are listed never changes what
/// is found: the same extreme prices carry the same venue names either way,
/// so the direction and the spread ratio are unchanged.
pub proof fn lemma_compare_symmetric(q1: VenueQuote, q2: VenueQuote, eps_num: int, eps_den: int)
    requires
        eps_num >= 0,
        eps_den > 0,
    ensures
        compare_spec(seq![q1, q2], eps_num, eps_den) == compare_spec(
            seq![q2, q1],
            eps_num,
            eps_den,
        ),
{
    lemma_two_quote_extremes(q1, q2);
    lemma_two_quote_extremes(q2, q1);
    if q1.price == q2.price {
        lemma_equal_prices_no_opportunity(q1, q2, eps_num, eps_den);
        lemma_equal_prices_no_opportunity(q2, q1, eps_num, eps_den);
    }
}

} // verus!
