//! The volume-weighted price of a market order, found by walking the book.
//!
//! A buy consumes asks from the lowest price up, a sell consumes bids from
//! the highest price down. Each level fills as much of what remains as its
//! size allows; the walk stops the moment nothing remains, and the price is
//! the total cost divided by the shares asked for. A book that runs out
//! first gives no price at all.

use crate::decimal::{
    aligned, difference, exact_difference, exact_product, exact_sum,
    lemma_exact_difference_is_difference, lemma_exact_product_is_product, lemma_exact_sum_is_sum,
    lemma_pow10_positive, pow10, product, quotient, sum, Dec, DecimalValue, MAX_SCALE,
};
use crate::error::Error;
use crate::types::enums::Side;
use crate::types::order::PriceLevel;
use vstd::prelude::*;

verus! {

/// Whether level `a` is strictly better than level `b` for an order of the
/// given side: cheaper for a buy, dearer for a sell.
pub open spec fn walks_before(a: PriceLevel, b: PriceLevel, side: Side) -> bool {
    match side {
        Side::Buy => a.price@.units() < b.price@.units(),
        Side::Sell => a.price@.units() > b.price@.units(),
    }
}

/// Where a new level goes among levels already in walking order: in front of
/// the first one that it is strictly better than, so behind every level of
/// the same price.
pub open spec fn insertion_point(levels: Seq<PriceLevel>, x: PriceLevel, side: Side) -> int
    decreases levels.len(),
{
    if levels.len() == 0 {
        0
    } else if walks_before(x, levels[0], side) {
        0
    } else {
        1 + insertion_point(levels.drop_first(), x, side)
    }
}

/// The levels in the order in which they are walked: best price first, and
/// levels of one price in the order in which the book listed them.
pub open spec fn walking_order(levels: Seq<PriceLevel>, side: Side) -> Seq<PriceLevel>
    decreases levels.len(),
{
    if levels.len() == 0 {
        Seq::empty()
    } else {
        let front = walking_order(levels.drop_last(), side);
        front.insert(insertion_point(front, levels.last(), side), levels.last())
    }
}

/// Why a walk gave no price.
pub enum WalkFailure {
    /// The levels ran out while shares remained.
    Exhausted,
    /// A product, sum, difference or quotient had no result.
    Arithmetic,
}

/// How much of `remaining` a level of the given size fills.
pub open spec fn fill(remaining: DecimalValue, size: DecimalValue) -> DecimalValue {
    if remaining.units() > size.units() {
        size
    } else {
        remaining
    }
}

/// The walk itself: the total cost once `remaining` has come down to zero,
/// starting from `cost`.
pub open spec fn walk(levels: Seq<PriceLevel>, remaining: DecimalValue, cost: DecimalValue)
    -> Result<DecimalValue, WalkFailure>
    decreases levels.len(),
{
    if levels.len() == 0 {
        Err(WalkFailure::Exhausted)
    } else {
        let filled = fill(remaining, levels[0].size@);
        match product(filled, levels[0].price@) {
            None => Err(WalkFailure::Arithmetic),
            Some(part) => match sum(cost, part) {
                None => Err(WalkFailure::Arithmetic),
                Some(cost_after) => match difference(remaining, filled) {
                    None => Err(WalkFailure::Arithmetic),
                    Some(left) => if left.mantissa == 0 {
                        Ok(cost_after)
                    } else {
                        walk(levels.drop_first(), left, cost_after)
                    },
                },
            },
        }
    }
}

/// The price of a market order for `shares` against `levels`.
pub open spec fn market_price(levels: Seq<PriceLevel>, shares: DecimalValue, side: Side) -> Result<
    DecimalValue,
    WalkFailure,
> {
    match walk(walking_order(levels, side), shares, DecimalValue { mantissa: 0, scale: 0 }) {
        Err(e) => Err(e),
        Ok(cost) => match quotient(cost, shares) {
            None => Err(WalkFailure::Arithmetic),
            Some(price) => Ok(price),
        },
    }
}

/// What `calculate_market_price` returns for each outcome of the walk.
pub open spec fn reports(
    result: Result<Dec, Error>,
    outcome: Result<DecimalValue, WalkFailure>,
    shares: Dec,
) -> bool {
    match outcome {
        Ok(price) => result matches Ok(d) && d@ == price,
        Err(WalkFailure::Exhausted) => result matches Err(Error::InsufficientLiquidity(s)) && s
            == shares,
        Err(WalkFailure::Arithmetic) => result matches Err(Error::InvalidParameter(_)),
    }
}

/// If `x` is not strictly better than any of the first `j` levels, and is
/// strictly better than the one at `j` if there is one, then `j` is where it
/// goes.
proof fn lemma_insertion_point(levels: Seq<PriceLevel>, x: PriceLevel, side: Side, j: int)
    requires
        0 <= j <= levels.len(),
        forall|k: int| 0 <= k < j ==> !walks_before(x, #[trigger] levels[k], side),
        j < levels.len() ==> walks_before(x, levels[j], side),
    ensures
        insertion_point(levels, x, side) == j,
    decreases levels.len(),
{
    if levels.len() > 0 && j > 0 {
        let rest = levels.drop_first();
        assert(!walks_before(x, levels[0], side));
        assert forall|k: int| 0 <= k < j - 1 implies !walks_before(
            x,
            #[trigger] rest[k],
            side,
        ) by {
            assert(rest[k] == levels[k + 1]);
        }
        lemma_insertion_point(rest, x, side, j - 1);
    }
}

/// A copy of the levels in walking order.
fn sort_levels(positions: &[PriceLevel], side: Side) -> (sorted: Vec<PriceLevel>)
    ensures
        sorted@ == walking_order(positions@, side),
{
    let mut sorted: Vec<PriceLevel> = Vec::new();
    let mut i: usize = 0;
    while i < positions.len()
        invariant
            i <= positions.len(),
            sorted@ == walking_order(positions@.take(i as int), side),
        decreases positions.len() - i,
    {
        let x = positions[i];
        let mut j: usize = 0;
        while j < sorted.len() && !is_better(&x, &sorted[j], side)
            invariant
                j <= sorted.len(),
                forall|k: int| 0 <= k < j ==> !walks_before(x, #[trigger] sorted@[k], side),
            decreases sorted.len() - j,
        {
            j += 1;
        }
        proof {
            lemma_insertion_point(sorted@, x, side, j as int);
            let upto = positions@.take(i + 1);
            assert(upto.drop_last() == positions@.take(i as int));
            assert(upto.last() == x);
        }
        sorted.insert(j, x);
        i += 1;
    }
    proof {
        assert(positions@.take(i as int) == positions@);
    }
    sorted
}

/// Whether level `a` is strictly better than level `b`.
fn is_better(a: &PriceLevel, b: &PriceLevel, side: Side) -> (r: bool)
    ensures
        r == walks_before(*a, *b, side),
{
    match side {
        Side::Buy => a.price.lt(&b.price),
        Side::Sell => a.price.gt(&b.price),
    }
}

/// Calculate the weighted average price for a market order based on order
/// book depth.
///
/// Returns the price at which `shares_to_match` shares can be filled. Fails
/// with `InsufficientLiquidity`, carrying `shares_to_match`, where the book
/// runs out first, and with `InvalidParameter` where the decimal arithmetic
/// has no result: on overflow, or when zero shares are asked of a book that
/// has a level.
pub fn calculate_market_price(positions: &[PriceLevel], shares_to_match: Dec, side: Side) -> (result:
    Result<Dec, Error>)
    ensures
        reports(result, market_price(positions@, shares_to_match@, side), shares_to_match),
{
    let sorted = sort_levels(positions, side);
    let mut remaining = shares_to_match;
    let mut total_cost = Dec::zero();
    let mut i: usize = 0;
    proof {
        assert(sorted@.skip(0) == sorted@);
        assert(total_cost@ == DecimalValue { mantissa: 0, scale: 0 });
    }
    while i < sorted.len()
        invariant
            i <= sorted.len(),
            walk(sorted@, shares_to_match@, DecimalValue { mantissa: 0, scale: 0 }) == walk(
                sorted@.skip(i as int),
                remaining@,
                total_cost@,
            ),
            sorted@ == walking_order(positions@, side),
        decreases sorted.len() - i,
    {
        let p = sorted[i];
        proof {
            let rest = sorted@.skip(i as int);
            assert(rest[0] == p);
            assert(rest.drop_first() == sorted@.skip(i + 1));
        }
        let filled = remaining.min(p.size);
        let part = match filled.checked_mul(p.price) {
            Some(part) => part,
            None => { return Err(Error::InvalidParameter("market price overflows".to_owned())); },
        };
        total_cost = match total_cost.checked_add(part) {
            Some(cost) => cost,
            None => { return Err(Error::InvalidParameter("market price overflows".to_owned())); },
        };
        remaining = match remaining.checked_sub(filled) {
            Some(left) => left,
            None => { return Err(Error::InvalidParameter("market price overflows".to_owned())); },
        };
        if remaining.is_zero() {
            return match total_cost.checked_div(shares_to_match) {
                Some(price) => Ok(price),
                None => Err(Error::InvalidParameter("market price has no value".to_owned())),
            };
        }
        i += 1;
    }
    Err(Error::InsufficientLiquidity(shares_to_match))
}

/// Whether no level comes behind one that it is strictly better than.
pub open spec fn in_walking_order(levels: Seq<PriceLevel>, side: Side) -> bool {
    forall|i: int, j: int|
        0 <= i < j < levels.len() ==> !walks_before(#[trigger] levels[j], #[trigger] levels[i], side)
}

/// The insertion point lies within the levels, behind every level that the
/// new one is not strictly better than, and in front of one that it is
/// strictly better than.
pub proof fn lemma_insertion_point_splits(levels: Seq<PriceLevel>, x: PriceLevel, side: Side)
    ensures
        0 <= insertion_point(levels, x, side) <= levels.len(),
        forall|k: int|
            0 <= k < insertion_point(levels, x, side) ==> !walks_before(
                x,
                #[trigger] levels[k],
                side,
            ),
        insertion_point(levels, x, side) < levels.len() ==> walks_before(
            x,
            levels[insertion_point(levels, x, side)],
            side,
        ),
    decreases levels.len(),
{
    if levels.len() > 0 && !walks_before(x, levels[0], side) {
        let rest = levels.drop_first();
        lemma_insertion_point_splits(rest, x, side);
        let at = insertion_point(rest, x, side);
        assert forall|k: int| 0 <= k < at + 1 implies !walks_before(
            x,
            #[trigger] levels[k],
            side,
        ) by {
            if k > 0 {
                assert(levels[k] == rest[k - 1]);
            }
        }
        if at < rest.len() {
            assert(levels[at + 1] == rest[at]);
        }
    }
}

/// The walking order holds the levels of the book, each as often as the book
/// does: nothing is lost and nothing made up.
pub proof fn lemma_walking_order_is_permutation(levels: Seq<PriceLevel>, side: Side)
    ensures
        walking_order(levels, side).to_multiset() == levels.to_multiset(),
        walking_order(levels, side).len() == levels.len(),
    decreases levels.len(),
{
    if levels.len() > 0 {
        let init = levels.drop_last();
        let front = walking_order(init, side);
        lemma_walking_order_is_permutation(init, side);
        lemma_insertion_point_splits(front, levels.last(), side);
        vstd::seq_lib::to_multiset_insert(
            front,
            insertion_point(front, levels.last(), side),
            levels.last(),
        );
        vstd::seq_lib::to_multiset_build(init, levels.last());
        assert(init.push(levels.last()) == levels);
    } else {
        assert(walking_order(levels, side) == levels);
    }
}

/// The walking order is in walking order: the best price comes first.
pub proof fn lemma_walking_order_is_ordered(levels: Seq<PriceLevel>, side: Side)
    ensures
        in_walking_order(walking_order(levels, side), side),
    decreases levels.len(),
{
    if levels.len() > 0 {
        let init = levels.drop_last();
        let front = walking_order(init, side);
        let x = levels.last();
        let at = insertion_point(front, x, side);
        let all = walking_order(levels, side);
        lemma_walking_order_is_ordered(init, side);
        lemma_insertion_point_splits(front, x, side);
        assert(all == front.insert(at, x));
        assert forall|i: int, j: int| 0 <= i < j < all.len() implies !walks_before(
            #[trigger] all[j],
            #[trigger] all[i],
            side,
        ) by {
            if j < at {
                assert(all[i] == front[i] && all[j] == front[j]);
            } else if j == at {
                assert(all[i] == front[i] && all[j] == x);
            } else if i < at {
                assert(all[i] == front[i] && all[j] == front[j - 1]);
            } else if i == at {
                assert(all[i] == x && all[j] == front[j - 1]);
                assert(walks_before(x, front[at], side));
                if j - 1 > at {
                    assert(!walks_before(front[j - 1], front[at], side));
                }
            } else {
                assert(all[i] == front[i - 1] && all[j] == front[j - 1]);
            }
        }
    }
}

/// Levels of one price are walked in the order in which the book lists
/// them: picking out the levels of any one price gives the same sequence
/// from the walking order as from the book.
pub proof fn lemma_walking_order_is_stable(levels: Seq<PriceLevel>, side: Side, price: int)
    ensures
        walking_order(levels, side).filter(|l: PriceLevel| l.price@.units() == price)
            == levels.filter(|l: PriceLevel| l.price@.units() == price),
    decreases levels.len(),
{
    let at_price = |l: PriceLevel| l.price@.units() == price;
    if levels.len() > 0 {
        let init = levels.drop_last();
        let front = walking_order(init, side);
        let x = levels.last();
        let at = insertion_point(front, x, side);
        let all = walking_order(levels, side);
        lemma_walking_order_is_stable(init, side, price);
        lemma_walking_order_is_ordered(init, side);
        lemma_insertion_point_splits(front, x, side);
        let before = front.subrange(0, at);
        let behind = front.subrange(at, front.len() as int);
        assert(front == before + behind);
        assert(all == before.push(x) + behind);
        assert(levels == init.push(x));
        Seq::filter_distributes_over_add(before, behind, at_price);
        Seq::filter_distributes_over_add(before.push(x), behind, at_price);
        before.lemma_filter_push(x, at_price);
        init.lemma_filter_push(x, at_price);
        if at_price(x) {
            assert forall|k: int| 0 <= k < behind.len() implies !at_price(#[trigger] behind[k]) by {
                assert(behind[k] == front[at + k]);
                assert(walks_before(x, front[at], side));
                if k > 0 {
                    assert(!walks_before(front[at + k], front[at], side));
                }
            }
            assert(behind.all(|l: PriceLevel| !at_price(l)));
            behind.lemma_all_neg_filter_empty(at_price);
            assert(behind.filter(at_price) == Seq::<PriceLevel>::empty());
            assert(all.filter(at_price) == before.filter(at_price).push(x));
            assert(front.filter(at_price) == before.filter(at_price));
        }
    } else {
        assert(walking_order(levels, side) == levels);
    }
}

/// Where the best level alone holds enough, the price is the cost of all
/// shares at that level's price, divided by the shares.
pub proof fn lemma_best_level_suffices(levels: Seq<PriceLevel>, shares: DecimalValue, side: Side)
    requires
        levels.len() > 0,
        shares.representable(),
        shares.units() <= walking_order(levels, side)[0].size@.units(),
    ensures
        market_price(levels, shares, side) == (match product(
            shares,
            walking_order(levels, side)[0].price@,
        ) {
            None => Err::<DecimalValue, WalkFailure>(WalkFailure::Arithmetic),
            Some(cost) => match quotient(cost, shares) {
                None => Err(WalkFailure::Arithmetic),
                Some(price) => Ok(price),
            },
        }),
{
    lemma_walking_order_is_permutation(levels, side);
    let sorted = walking_order(levels, side);
    let zero = DecimalValue { mantissa: 0, scale: 0 };
    assert(fill(shares, sorted[0].size@) == shares);
    match product(shares, sorted[0].price@) {
        None => {},
        Some(cost) => {
            assert(sum(zero, cost) == Some(cost));
            assert(pow10(0) == 1);
            assert(aligned(shares, shares.scale) == shares.mantissa);
            assert(exact_difference(shares, shares) is Some);
            assert(exact_difference(shares, shares)->0.mantissa == 0);
        },
    }
}

/// The price of a market order depends on nothing but the book, the shares
/// and the side: two runs on one input agree on the price, mantissa and
/// scale, and on the failure.
pub proof fn lemma_market_price_repeats(
    positions: Seq<PriceLevel>,
    shares_to_match: Dec,
    side: Side,
    first: Result<Dec, Error>,
    second: Result<Dec, Error>,
)
    requires
        reports(first, market_price(positions, shares_to_match@, side), shares_to_match),
        reports(second, market_price(positions, shares_to_match@, side), shares_to_match),
    ensures
        match (first, second) {
            (Ok(a), Ok(b)) => a@ == b@,
            (Err(Error::InsufficientLiquidity(a)), Err(Error::InsufficientLiquidity(b))) => a == b,
            (Err(Error::InvalidParameter(_)), Err(Error::InvalidParameter(_))) => true,
            _ => false,
        },
{
}

/// Whether every product, sum and difference of the walk comes out exact,
/// none of them rounded.
pub open spec fn walks_exactly(levels: Seq<PriceLevel>, remaining: DecimalValue, cost: DecimalValue)
    -> bool
    decreases levels.len(),
{
    levels.len() == 0 || {
        let filled = fill(remaining, levels[0].size@);
        let part = exact_product(filled, levels[0].price@);
        let left = exact_difference(remaining, filled);
        &&& part is Some
        &&& exact_sum(cost, part->0) is Some
        &&& left is Some
        &&& (left->0.mantissa == 0 || walks_exactly(
            levels.drop_first(),
            left->0,
            exact_sum(cost, part->0)->0,
        ))
    }
}

/// The cost of `remaining` filled level by level, each level giving what it
/// has until nothing remains: the sum of fill times price. Sizes, prices and
/// `remaining` are counted in units of `10^-28`, the cost in squares of that
/// unit. `None` where the levels run out first.
pub open spec fn greedy_cost(levels: Seq<PriceLevel>, remaining: int) -> Option<int>
    decreases levels.len(),
{
    if levels.len() == 0 {
        None
    } else {
        let size = levels[0].size@.units();
        let filled = if remaining > size {
            size
        } else {
            remaining
        };
        let here = filled * levels[0].price@.units();
        if remaining == filled {
            Some(here)
        } else {
            match greedy_cost(levels.drop_first(), remaining - filled) {
                Some(beyond) => Some(here + beyond),
                None => None,
            }
        }
    }
}

/// The sizes of the levels added up, in units of `10^-28`.
pub open spec fn total_size(levels: Seq<PriceLevel>) -> int
    decreases levels.len(),
{
    if levels.len() == 0 {
        0
    } else {
        levels[0].size@.units() + total_size(levels.drop_first())
    }
}

/// Whether prices and sizes are decimals with a scale of at most 28.
pub open spec fn well_scaled(levels: Seq<PriceLevel>) -> bool {
    forall|i: int|
        0 <= i < levels.len() ==> (#[trigger] levels[i]).price@.scale <= MAX_SCALE
            && levels[i].size@.scale <= MAX_SCALE
}

/// A walk without rounding computes the greedy cost: it ends with the cost
/// it started from plus the sum of fill times price, and it runs out of
/// levels exactly where the greedy filling does.
pub proof fn lemma_exact_walk_is_greedy(
    levels: Seq<PriceLevel>,
    remaining: DecimalValue,
    cost: DecimalValue,
)
    requires
        well_scaled(levels),
        remaining.scale <= MAX_SCALE,
        cost.scale <= MAX_SCALE,
        walks_exactly(levels, remaining, cost),
    ensures
        match walk(levels, remaining, cost) {
            Ok(total) => greedy_cost(levels, remaining.units()) matches Some(added)
                && total.units() * pow10(MAX_SCALE as nat) == cost.units() * pow10(
                MAX_SCALE as nat,
            ) + added,
            Err(WalkFailure::Exhausted) => greedy_cost(levels, remaining.units()) is None,
            Err(WalkFailure::Arithmetic) => false,
        },
    decreases levels.len(),
{
    if levels.len() > 0 {
        let whole = pow10(MAX_SCALE as nat);
        let size = levels[0].size@;
        let price = levels[0].price@;
        let filled = fill(remaining, size);
        let part = exact_product(filled, price)->0;
        let cost_after = exact_sum(cost, part)->0;
        let left = exact_difference(remaining, filled)->0;
        assert(product(filled, price) == Some(part));
        assert(sum(cost, part) == Some(cost_after));
        assert(difference(remaining, filled) == Some(left));
        lemma_exact_product_is_product(filled, price);
        lemma_exact_sum_is_sum(cost, part);
        lemma_exact_difference_is_difference(remaining, filled);
        lemma_pow10_positive((MAX_SCALE - left.scale) as nat);
        let p = pow10((MAX_SCALE - left.scale) as nat);
        assert((left.mantissa == 0) == (left.units() == 0)) by (nonlinear_arith)
            requires
                left.units() == left.mantissa * p,
                p >= 1,
        ;
        assert(filled.units() == (if remaining.units() > size.units() {
            size.units()
        } else {
            remaining.units()
        }));
        assert(cost_after.units() * whole == cost.units() * whole + part.units() * whole)
            by (nonlinear_arith)
            requires
                cost_after.units() == cost.units() + part.units(),
        ;
        if left.mantissa != 0 {
            lemma_exact_walk_is_greedy(levels.drop_first(), left, cost_after);
        }
    }
}

/// Where no level has a negative size and a positive number of shares is
/// asked for, the greedy filling succeeds exactly when the sizes add up to
/// at least the shares: a book that holds enough is never refused, and a
/// book that holds too little never gives a price.
pub proof fn lemma_greedy_needs_enough_size(levels: Seq<PriceLevel>, remaining: int)
    requires
        remaining > 0,
        forall|i: int| 0 <= i < levels.len() ==> (#[trigger] levels[i]).size@.units() >= 0,
    ensures
        greedy_cost(levels, remaining) is Some <==> total_size(levels) >= remaining,
        total_size(levels) >= 0,
    decreases levels.len(),
{
    if levels.len() > 0 {
        let rest = levels.drop_first();
        assert forall|i: int| 0 <= i < rest.len() implies (#[trigger] rest[i]).size@.units()
            >= 0 by {
            assert(rest[i] == levels[i + 1]);
        }
        let size = levels[0].size@.units();
        if remaining > size {
            lemma_greedy_needs_enough_size(rest, remaining - size);
        } else {
            lemma_greedy_needs_enough_size(rest, 1);
        }
    }
}

/// Putting a level in among others adds its size to theirs.
pub proof fn lemma_total_size_insert(levels: Seq<PriceLevel>, at: int, x: PriceLevel)
    requires
        0 <= at <= levels.len(),
    ensures
        total_size(levels.insert(at, x)) == total_size(levels) + x.size@.units(),
    decreases levels.len(),
{
    let all = levels.insert(at, x);
    if at == 0 {
        assert(all[0] == x);
        assert(all.drop_first() == levels);
    } else {
        assert(all[0] == levels[0]);
        assert(all.drop_first() == levels.drop_first().insert(at - 1, x));
        lemma_total_size_insert(levels.drop_first(), at - 1, x);
    }
}

/// The walking order holds as much size as the book, and levels of the same
/// scales.
pub proof fn lemma_walking_order_keeps_sizes(levels: Seq<PriceLevel>, side: Side)
    ensures
        total_size(walking_order(levels, side)) == total_size(levels),
        well_scaled(levels) ==> well_scaled(walking_order(levels, side)),
        (forall|i: int| 0 <= i < levels.len() ==> (#[trigger] levels[i]).size@.units() >= 0)
            ==> (forall|i: int|
            0 <= i < walking_order(levels, side).len() ==> (#[trigger] walking_order(
                levels,
                side,
            )[i]).size@.units() >= 0),
    decreases levels.len(),
{
    if levels.len() > 0 {
        let init = levels.drop_last();
        let front = walking_order(init, side);
        let x = levels.last();
        let at = insertion_point(front, x, side);
        let all = walking_order(levels, side);
        lemma_walking_order_keeps_sizes(init, side);
        lemma_walking_order_is_permutation(init, side);
        lemma_insertion_point_splits(front, x, side);
        lemma_total_size_insert(front, at, x);
        lemma_total_size_push(init, x);
        assert(init.push(x) == levels);
        assert(all == front.insert(at, x));
        if well_scaled(levels) {
            assert forall|i: int| 0 <= i < init.len() implies (#[trigger] init[i]).price@.scale
                <= MAX_SCALE && init[i].size@.scale <= MAX_SCALE by {
                assert(init[i] == levels[i]);
            }
            assert forall|i: int| 0 <= i < all.len() implies (#[trigger] all[i]).price@.scale
                <= MAX_SCALE && all[i].size@.scale <= MAX_SCALE by {
                if i < at {
                    assert(all[i] == front[i]);
                } else if i > at {
                    assert(all[i] == front[i - 1]);
                }
            }
        }
        if forall|i: int| 0 <= i < levels.len() ==> (#[trigger] levels[i]).size@.units() >= 0 {
            assert forall|i: int| 0 <= i < init.len() implies (#[trigger] init[i]).size@.units()
                >= 0 by {
                assert(init[i] == levels[i]);
            }
            assert forall|i: int| 0 <= i < all.len() implies (#[trigger] all[i]).size@.units()
                >= 0 by {
                if i < at {
                    assert(all[i] == front[i]);
                } else if i > at {
                    assert(all[i] == front[i - 1]);
                }
            }
        }
    } else {
        assert(walking_order(levels, side) == levels);
    }
}

/// Putting a level behind others adds its size to theirs.
pub proof fn lemma_total_size_push(levels: Seq<PriceLevel>, x: PriceLevel)
    ensures
        total_size(levels.push(x)) == total_size(levels) + x.size@.units(),
{
    lemma_total_size_insert(levels, levels.len() as int, x);
    assert(levels.insert(levels.len() as int, x) == levels.push(x));
}

/// The price of a market order where nothing is rounded on the way.
///
/// The walk ends with the greedy cost of the shares, best price first. And
/// where no size is negative and the shares are positive, the order is
/// refused for want of liquidity exactly when the sizes of the book add up
/// to less than the shares: never a price for a partial fill, never a
/// refusal of an order that the book can fill.
pub proof fn lemma_exact_price_is_greedy(levels: Seq<PriceLevel>, shares: DecimalValue, side: Side)
    requires
        well_scaled(levels),
        shares.scale <= MAX_SCALE,
        walks_exactly(
            walking_order(levels, side),
            shares,
            DecimalValue { mantissa: 0, scale: 0 },
        ),
    ensures
        match walk(walking_order(levels, side), shares, DecimalValue { mantissa: 0, scale: 0 }) {
            Ok(cost) => greedy_cost(walking_order(levels, side), shares.units()) == Some(
                cost.units() * pow10(MAX_SCALE as nat),
            ) && market_price(levels, shares, side) == (match quotient(cost, shares) {
                Some(price) => Ok::<DecimalValue, WalkFailure>(price),
                None => Err(WalkFailure::Arithmetic),
            }),
            Err(_) => greedy_cost(walking_order(levels, side), shares.units()) is None
                && market_price(levels, shares, side) == Err::<DecimalValue, WalkFailure>(
                WalkFailure::Exhausted,
            ),
        },
        shares.units() > 0 && (forall|i: int|
            0 <= i < levels.len() ==> (#[trigger] levels[i]).size@.units() >= 0) ==> (
        market_price(levels, shares, side) == Err::<DecimalValue, WalkFailure>(
            WalkFailure::Exhausted,
        ) <==> total_size(levels) < shares.units()),
{
    let sorted = walking_order(levels, side);
    let zero = DecimalValue { mantissa: 0, scale: 0 };
    lemma_walking_order_keeps_sizes(levels, side);
    lemma_exact_walk_is_greedy(sorted, shares, zero);
    assert(zero.units() * pow10(MAX_SCALE as nat) == 0) by (nonlinear_arith)
        requires
            zero.units() == 0 * pow10(MAX_SCALE as nat),
    ;
    if shares.units() > 0 && (forall|i: int|
        0 <= i < levels.len() ==> (#[trigger] levels[i]).size@.units() >= 0) {
        lemma_greedy_needs_enough_size(sorted, shares.units());
    }
}

/// Whether no level has a negative size.
pub open spec fn no_negative_size(levels: Seq<PriceLevel>) -> bool {
    forall|i: int| 0 <= i < levels.len() ==> (#[trigger] levels[i]).size@.units() >= 0
}

/// One step of the greedy filling, for a level in front of others.
proof fn lemma_greedy_step(x: PriceLevel, rest: Seq<PriceLevel>, remaining: int)
    ensures
        greedy_cost(seq![x] + rest, remaining) == ({
            let size = x.size@.units();
            let filled = if remaining > size {
                size
            } else {
                remaining
            };
            let here = filled * x.price@.units();
            if remaining == filled {
                Some(here)
            } else {
                match greedy_cost(rest, remaining - filled) {
                    Some(beyond) => Some(here + beyond),
                    None => None,
                }
            }
        }),
{
    let all = seq![x] + rest;
    assert(all[0] == x);
    assert(all.drop_first() == rest);
}

/// Two levels of one price cost the same in either order.
proof fn lemma_greedy_swap(x: PriceLevel, y: PriceLevel, rest: Seq<PriceLevel>, remaining: int)
    requires
        x.price@.units() == y.price@.units(),
        x.size@.units() >= 0,
        y.size@.units() >= 0,
        remaining > 0,
    ensures
        greedy_cost(seq![x] + (seq![y] + rest), remaining) == greedy_cost(
            seq![y] + (seq![x] + rest),
            remaining,
        ),
{
    let a = x.size@.units();
    let b = y.size@.units();
    let p = x.price@.units();
    lemma_greedy_step(x, seq![y] + rest, remaining);
    lemma_greedy_step(y, seq![x] + rest, remaining);
    if remaining > a {
        lemma_greedy_step(y, rest, remaining - a);
    }
    if remaining > b {
        lemma_greedy_step(x, rest, remaining - b);
    }
    assert((remaining - a) * p + a * p == remaining * p) by (nonlinear_arith);
    assert((remaining - b) * p + b * p == remaining * p) by (nonlinear_arith);
}

/// Levels that cost the same for every number of shares still do behind any
/// levels that are walked first.
proof fn lemma_greedy_behind(
    front: Seq<PriceLevel>,
    u: Seq<PriceLevel>,
    v: Seq<PriceLevel>,
    remaining: int,
)
    requires
        remaining > 0,
        no_negative_size(front),
        forall|q: int| q > 0 ==> #[trigger] greedy_cost(u, q) == greedy_cost(v, q),
    ensures
        greedy_cost(front + u, remaining) == greedy_cost(front + v, remaining),
    decreases front.len(),
{
    if front.len() == 0 {
        assert(front + u == u);
        assert(front + v == v);
    } else {
        let x = front[0];
        let tail = front.drop_first();
        assert(front + u == seq![x] + (tail + u));
        assert(front + v == seq![x] + (tail + v));
        lemma_greedy_step(x, tail + u, remaining);
        lemma_greedy_step(x, tail + v, remaining);
        assert forall|i: int| 0 <= i < tail.len() implies (#[trigger] tail[i]).size@.units()
            >= 0 by {
            assert(tail[i] == front[i + 1]);
        }
        if remaining > x.size@.units() {
            lemma_greedy_behind(tail, u, v, remaining - x.size@.units());
        }
    }
}

/// A level may be walked ahead of levels of its own price at no change of
/// cost.
proof fn lemma_greedy_ahead(levels: Seq<PriceLevel>, k: int, remaining: int)
    requires
        0 <= k < levels.len(),
        no_negative_size(levels),
        remaining > 0,
        forall|j: int|
            0 <= j < k ==> (#[trigger] levels[j]).price@.units() == levels[k].price@.units(),
    ensures
        greedy_cost(levels, remaining) == greedy_cost(
            seq![levels[k]] + levels.remove(k),
            remaining,
        ),
    decreases k,
{
    if k == 0 {
        assert(levels == seq![levels[0]] + levels.remove(0));
    } else {
        let first = levels[0];
        let tail = levels.drop_first();
        let moved = seq![levels[k]] + tail.remove(k - 1);
        assert(tail[k - 1] == levels[k]);
        assert forall|i: int| 0 <= i < tail.len() implies (#[trigger] tail[i]).size@.units()
            >= 0 by {
            assert(tail[i] == levels[i + 1]);
        }
        assert forall|j: int| 0 <= j < k - 1 implies (#[trigger] tail[j]).price@.units()
            == tail[k - 1].price@.units() by {
            assert(tail[j] == levels[j + 1]);
        }
        assert forall|q: int| q > 0 implies #[trigger] greedy_cost(tail, q) == greedy_cost(
            moved,
            q,
        ) by {
            lemma_greedy_ahead(tail, k - 1, q);
        }
        let alone = seq![first];
        assert(alone[0] == first);
        lemma_greedy_behind(alone, tail, moved, remaining);
        assert(alone + tail == levels);
        assert(alone + moved == seq![first] + (seq![levels[k]] + tail.remove(k - 1)));
        assert(levels[0].price@.units() == levels[k].price@.units());
        lemma_greedy_swap(first, levels[k], tail.remove(k - 1), remaining);
        assert(seq![first] + tail.remove(k - 1) == levels.remove(k));
    }
}

/// Two walking orders of the same levels cost the same: among levels of one
/// price it does not matter which is walked first.
pub proof fn lemma_greedy_cost_of_same_levels(
    s: Seq<PriceLevel>,
    t: Seq<PriceLevel>,
    side: Side,
    remaining: int,
)
    requires
        in_walking_order(s, side),
        in_walking_order(t, side),
        s.to_multiset() == t.to_multiset(),
        no_negative_size(s),
        no_negative_size(t),
        remaining > 0,
    ensures
        greedy_cost(s, remaining) == greedy_cost(t, remaining),
    decreases s.len(),
{
    s.to_multiset_ensures();
    t.to_multiset_ensures();
    if t.len() == 0 {
        assert(s == t);
    } else {
        let x = t[0];
        assert(t.contains(x));
        vstd::seq_lib::to_multiset_contains(t, x);
        vstd::seq_lib::to_multiset_contains(s, x);
        assert(s.contains(x));
        let k = choose|k: int| 0 <= k < s.len() && s[k] == x;
        assert forall|j: int| 0 <= j < k implies (#[trigger] s[j]).price@.units()
            == s[k].price@.units() by {
            assert(s.contains(s[j]));
            vstd::seq_lib::to_multiset_contains(s, s[j]);
            vstd::seq_lib::to_multiset_contains(t, s[j]);
            assert(t.contains(s[j]));
            let m = choose|m: int| 0 <= m < t.len() && t[m] == s[j];
            if m > 0 {
                assert(!walks_before(t[m], t[0], side));
            }
            assert(!walks_before(s[k], s[j], side));
        }
        lemma_greedy_ahead(s, k, remaining);
        let s2 = s.remove(k);
        let t2 = t.drop_first();
        assert(t2 == t.remove(0));
        assert(s2.to_multiset() == t2.to_multiset());
        assert forall|i: int, j: int| 0 <= i < j < s2.len() implies !walks_before(
            #[trigger] s2[j],
            #[trigger] s2[i],
            side,
        ) by {
            let from = if i < k {
                i
            } else {
                i + 1
            };
            let to = if j < k {
                j
            } else {
                j + 1
            };
            assert(s2[i] == s[from] && s2[j] == s[to]);
        }
        assert forall|i: int, j: int| 0 <= i < j < t2.len() implies !walks_before(
            #[trigger] t2[j],
            #[trigger] t2[i],
            side,
        ) by {
            assert(t2[i] == t[i + 1] && t2[j] == t[j + 1]);
        }
        assert forall|i: int| 0 <= i < s2.len() implies (#[trigger] s2[i]).size@.units() >= 0 by {
            let from = if i < k {
                i
            } else {
                i + 1
            };
            assert(s2[i] == s[from]);
        }
        assert forall|i: int| 0 <= i < t2.len() implies (#[trigger] t2[i]).size@.units() >= 0 by {
            assert(t2[i] == t[i + 1]);
        }
        assert forall|q: int| q > 0 implies #[trigger] greedy_cost(s2, q) == greedy_cost(t2, q) by {
            lemma_greedy_cost_of_same_levels(s2, t2, side, q);
        }
        let alone = seq![x];
        assert(alone[0] == x);
        lemma_greedy_behind(alone, s2, t2, remaining);
        assert(alone + t2 == t);
    }
}

/// The cost of a fill does not depend on the order in which the book lists
/// its levels: two books that hold the same levels, each as often as the
/// other, give the same greedy cost for every positive number of shares.
pub proof fn lemma_cost_ignores_listing_order(
    a: Seq<PriceLevel>,
    b: Seq<PriceLevel>,
    side: Side,
    remaining: int,
)
    requires
        a.to_multiset() == b.to_multiset(),
        no_negative_size(a),
        remaining > 0,
    ensures
        greedy_cost(walking_order(a, side), remaining) == greedy_cost(
            walking_order(b, side),
            remaining,
        ),
{
    a.to_multiset_ensures();
    b.to_multiset_ensures();
    assert forall|i: int| 0 <= i < b.len() implies (#[trigger] b[i]).size@.units() >= 0 by {
        assert(b.contains(b[i]));
        vstd::seq_lib::to_multiset_contains(b, b[i]);
        vstd::seq_lib::to_multiset_contains(a, b[i]);
        assert(a.contains(b[i]));
        let m = choose|m: int| 0 <= m < a.len() && a[m] == b[i];
        assert(a[m].size@.units() >= 0);
    }
    lemma_walking_order_is_permutation(a, side);
    lemma_walking_order_is_permutation(b, side);
    lemma_walking_order_is_ordered(a, side);
    lemma_walking_order_is_ordered(b, side);
    lemma_walking_order_keeps_sizes(a, side);
    lemma_walking_order_keeps_sizes(b, side);
    lemma_greedy_cost_of_same_levels(
        walking_order(a, side),
        walking_order(b, side),
        side,
        remaining,
    );
}

/// Whether `fills` takes from each level no more than it holds, and nothing
/// negative: one number of shares for each level, in units of `10^-28`.
pub open spec fn is_fill(levels: Seq<PriceLevel>, fills: Seq<int>) -> bool {
    fills.len() == levels.len() && forall|i: int|
        0 <= i < levels.len() ==> 0 <= #[trigger] fills[i] <= levels[i].size@.units()
}

/// The shares that a fill takes in all.
pub open spec fn fill_total(fills: Seq<int>) -> int
    decreases fills.len(),
{
    if fills.len() == 0 {
        0
    } else {
        fills[0] + fill_total(fills.drop_first())
    }
}

/// What a fill costs: the sum of shares times price, level by level.
pub open spec fn fill_cost(levels: Seq<PriceLevel>, fills: Seq<int>) -> int
    decreases levels.len(),
{
    if levels.len() == 0 || fills.len() == 0 {
        0
    } else {
        fills[0] * levels[0].price@.units() + fill_cost(levels.drop_first(), fills.drop_first())
    }
}

/// A sum of money as an order of the given side wants it small: a buyer
/// wants to pay little, a seller to receive much.
pub open spec fn burden(side: Side, money: int) -> int {
    match side {
        Side::Buy => money,
        Side::Sell => -money,
    }
}

/// The burden of shares at a price is the shares times the burden of the
/// price.
proof fn lemma_burden_of_product(side: Side, shares: int, price: int)
    ensures
        burden(side, shares * price) == shares * burden(side, price),
{
    assert(-(shares * price) == shares * (-price)) by (nonlinear_arith);
}

/// A fill from levels none of which is better than `floor` is no better
/// than the same shares at `floor`.
proof fn lemma_fill_is_no_better_than_floor(
    levels: Seq<PriceLevel>,
    fills: Seq<int>,
    side: Side,
    floor: int,
)
    requires
        is_fill(levels, fills),
        forall|i: int|
            0 <= i < levels.len() ==> burden(side, (#[trigger] levels[i]).price@.units()) >= floor,
    ensures
        burden(side, fill_cost(levels, fills)) >= floor * fill_total(fills),
    decreases levels.len(),
{
    if levels.len() > 0 {
        let rest = levels.drop_first();
        let others = fills.drop_first();
        let taken = fills[0];
        let price = levels[0].price@.units();
        let key = burden(side, price);
        assert forall|i: int| 0 <= i < rest.len() implies 0 <= #[trigger] others[i]
            <= rest[i].size@.units() by {
            assert(others[i] == fills[i + 1] && rest[i] == levels[i + 1]);
        }
        assert forall|i: int| 0 <= i < rest.len() implies burden(
            side,
            (#[trigger] rest[i]).price@.units(),
        ) >= floor by {
            assert(rest[i] == levels[i + 1]);
        }
        lemma_fill_is_no_better_than_floor(rest, others, side, floor);
        lemma_burden_of_product(side, taken, price);
        assert(burden(side, fill_cost(levels, fills)) == burden(side, taken * price) + burden(
            side,
            fill_cost(rest, others),
        ));
        assert(taken * key >= floor * taken) by (nonlinear_arith)
            requires
                taken >= 0,
                key >= floor,
        ;
        assert(floor * (taken + fill_total(others)) == floor * taken + floor * fill_total(others))
            by (nonlinear_arith);
    } else {
        assert(floor * 0 == 0);
    }
}

/// The greedy filling is the best of all fills, and stays the best by the
/// margin of the floor price if a fill takes more shares than asked for.
proof fn lemma_greedy_beats_fill(
    levels: Seq<PriceLevel>,
    fills: Seq<int>,
    side: Side,
    remaining: int,
    floor: int,
)
    requires
        in_walking_order(levels, side),
        is_fill(levels, fills),
        0 < remaining <= fill_total(fills),
        greedy_cost(levels, remaining) is Some,
        forall|i: int|
            0 <= i < levels.len() ==> burden(side, (#[trigger] levels[i]).price@.units()) >= floor,
    ensures
        burden(side, fill_cost(levels, fills)) >= burden(
            side,
            greedy_cost(levels, remaining)->0,
        ) + (fill_total(fills) - remaining) * floor,
    decreases levels.len(),
{
    let rest = levels.drop_first();
    let others = fills.drop_first();
    let taken = fills[0];
    let size = levels[0].size@.units();
    let price = levels[0].price@.units();
    let key = burden(side, price);
    let total = fill_total(fills);
    let best = greedy_cost(levels, remaining)->0;
    assert(levels.len() > 0);
    assert(key >= floor);
    assert forall|i: int| 0 <= i < levels.len() implies burden(
        side,
        (#[trigger] levels[i]).price@.units(),
    ) >= key by {
        if i > 0 {
            assert(!walks_before(levels[i], levels[0], side));
        }
    }
    if remaining <= size {
        lemma_fill_is_no_better_than_floor(levels, fills, side, key);
        assert(best == remaining * price);
        lemma_burden_of_product(side, remaining, price);
        assert(key * total >= remaining * key + (total - remaining) * floor) by (nonlinear_arith)
            requires
                key >= floor,
                total >= remaining,
        ;
    } else {
        let beyond = greedy_cost(rest, remaining - size)->0;
        assert(greedy_cost(rest, remaining - size) is Some);
        assert(best == size * price + beyond);
        assert forall|i: int| 0 <= i < rest.len() implies 0 <= #[trigger] others[i]
            <= rest[i].size@.units() by {
            assert(others[i] == fills[i + 1] && rest[i] == levels[i + 1]);
        }
        assert forall|i: int| 0 <= i < rest.len() implies burden(
            side,
            (#[trigger] rest[i]).price@.units(),
        ) >= key by {
            assert(rest[i] == levels[i + 1]);
        }
        assert forall|i: int, j: int| 0 <= i < j < rest.len() implies !walks_before(
            #[trigger] rest[j],
            #[trigger] rest[i],
            side,
        ) by {
            assert(rest[i] == levels[i + 1] && rest[j] == levels[j + 1]);
        }
        let left = fill_total(others);
        assert(total == taken + left);
        assert(0 <= taken <= size);
        lemma_greedy_beats_fill(rest, others, side, remaining - size, key);
        let cost_here = taken * price;
        let cost_rest = fill_cost(rest, others);
        assert(fill_cost(levels, fills) == cost_here + cost_rest);
        lemma_burden_of_product(side, taken, price);
        lemma_burden_of_product(side, size, price);
        assert(burden(side, fill_cost(levels, fills)) == taken * key + burden(side, cost_rest));
        assert(burden(side, best) == size * key + burden(side, beyond));
        assert(taken * key + (left - (remaining - size)) * key == size * key + (total - remaining)
            * key) by (nonlinear_arith)
            requires
                total == taken + left,
        ;
        assert((total - remaining) * key >= (total - remaining) * floor) by (nonlinear_arith)
            requires
                key >= floor,
                total >= remaining,
        ;
    }
}

/// Of all ways to take the shares from levels in walking order, the greedy
/// filling is the cheapest for a buy and the dearest for a sell.
pub proof fn lemma_greedy_cost_is_best(
    levels: Seq<PriceLevel>,
    fills: Seq<int>,
    side: Side,
    remaining: int,
)
    requires
        in_walking_order(levels, side),
        is_fill(levels, fills),
        fill_total(fills) == remaining,
        remaining > 0,
        greedy_cost(levels, remaining) is Some,
    ensures
        side == Side::Buy ==> greedy_cost(levels, remaining)->0 <= fill_cost(levels, fills),
        side == Side::Sell ==> greedy_cost(levels, remaining)->0 >= fill_cost(levels, fills),
{
    let floor = burden(side, levels[0].price@.units());
    assert(levels.len() > 0);
    assert forall|i: int| 0 <= i < levels.len() implies burden(
        side,
        (#[trigger] levels[i]).price@.units(),
    ) >= floor by {
        if i > 0 {
            assert(!walks_before(levels[i], levels[0], side));
        }
    }
    lemma_greedy_beats_fill(levels, fills, side, remaining, floor);
    assert((fill_total(fills) - remaining) * floor == 0) by (nonlinear_arith)
        requires
            fill_total(fills) == remaining,
    ;
}

/// The cost of a market order where nothing is rounded on the way is the
/// best that the book allows: no way of taking the shares from the levels
/// costs a buyer less or brings a seller more.
pub proof fn lemma_exact_walk_is_best(
    levels: Seq<PriceLevel>,
    shares: DecimalValue,
    side: Side,
    fills: Seq<int>,
)
    requires
        well_scaled(levels),
        shares.scale <= MAX_SCALE,
        shares.units() > 0,
        walks_exactly(
            walking_order(levels, side),
            shares,
            DecimalValue { mantissa: 0, scale: 0 },
        ),
        walk(walking_order(levels, side), shares, DecimalValue { mantissa: 0, scale: 0 }) is Ok,
        is_fill(walking_order(levels, side), fills),
        fill_total(fills) == shares.units(),
    ensures
        ({
            let cost = walk(
                walking_order(levels, side),
                shares,
                DecimalValue { mantissa: 0, scale: 0 },
            )->Ok_0;
            let paid = fill_cost(walking_order(levels, side), fills);
            &&& side == Side::Buy ==> cost.units() * pow10(MAX_SCALE as nat) <= paid
            &&& side == Side::Sell ==> cost.units() * pow10(MAX_SCALE as nat) >= paid
        }),
{
    lemma_exact_price_is_greedy(levels, shares, side);
    lemma_walking_order_is_ordered(levels, side);
    lemma_greedy_cost_is_best(walking_order(levels, side), fills, side, shares.units());
}

} // verus!
