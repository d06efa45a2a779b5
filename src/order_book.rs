//! The price ladder of one side of an order book and the two trade
//! simulators that walk it.
use vstd::prelude::*;

use crate::math::{mul_div, mul_div_u64};

verus! {

/// One rung of a price ladder, best price first.
#[derive(Clone, Copy, Debug, PartialEq, Eq, Structural)]
pub struct OrderBookItem {
    /// The limit price in token decimals.
    pub price: u64,
    /// The base quantity in token decimals.
    pub quantity: u64,
    /// The sum of the quantities from the best rung through this one.
    pub quantity_sum: u64,
    /// The sum of price x quantity from the best rung through this one.
    pub price_quantity_sum: u128,
}

/// Whether the cumulative sums never fall from one rung to a later one.
pub open spec fn sums_sorted(items: Seq<OrderBookItem>) -> bool {
    forall|i: int, j: int|
        #![trigger items[i], items[j]]
        0 <= i <= j < items.len() ==> items[i].quantity_sum <= items[j].quantity_sum
            && items[i].price_quantity_sum <= items[j].price_quantity_sum
}

/// Whether `amount` pays for the ladder through `item` in full: for buying,
/// a quote budget whose value scaled by the decimals factor covers the
/// price-quantity sum; for selling, a base amount that covers the quantity sum.
pub open spec fn rung_consumed(item: OrderBookItem, by_price_quantity: bool, factor: u64, amount: int) -> bool {
    if by_price_quantity {
        item.price_quantity_sum as int <= amount * factor as int
    } else {
        item.quantity_sum as int <= amount
    }
}

/// How many of the first `n` rungs an amount consumes in full: one past the
/// last of them that it pays for in full, or zero.
pub open spec fn rungs_within(
    items: Seq<OrderBookItem>,
    by_price_quantity: bool,
    factor: u64,
    amount: int,
    n: int,
) -> int
    decreases n,
{
    if n <= 0 {
        0
    } else if rung_consumed(items[n - 1], by_price_quantity, factor, amount) {
        n
    } else {
        rungs_within(items, by_price_quantity, factor, amount, n - 1)
    }
}

/// How many rungs of the ladder `amount` consumes in full.
pub open spec fn consumed_rungs(items: Seq<OrderBookItem>, by_price_quantity: bool, factor: u64, amount: int) -> int {
    rungs_within(items, by_price_quantity, factor, amount, items.len() as int)
}

/// On sorted sums, an amount that pays through a rung pays through every
/// earlier one.
proof fn lemma_consumed_sorted(items: Seq<OrderBookItem>, by_price_quantity: bool, factor: u64, amount: int, i: int, j: int)
    requires
        sums_sorted(items),
        0 <= i <= j < items.len(),
        rung_consumed(items[j], by_price_quantity, factor, amount),
    ensures
        rung_consumed(items[i], by_price_quantity, factor, amount),
{
}

/// `rungs_within` is `m` when the amount pays through none of the rungs from
/// `m` to `n` and through the one before `m`.
proof fn lemma_rungs_within_is(
    items: Seq<OrderBookItem>,
    by_price_quantity: bool,
    factor: u64,
    amount: int,
    m: int,
    n: int,
)
    requires
        0 <= m <= n <= items.len(),
        forall|i: int| m <= i < n ==> !rung_consumed(#[trigger] items[i], by_price_quantity, factor, amount),
        m == 0 || rung_consumed(items[m - 1], by_price_quantity, factor, amount),
    ensures
        rungs_within(items, by_price_quantity, factor, amount, n) == m,
    decreases n,
{
    if n > m {
        lemma_rungs_within_is(items, by_price_quantity, factor, amount, m, n - 1);
    }
}

/// What `rungs_within` says of the rungs around it.
pub proof fn lemma_rungs_within_facts(
    items: Seq<OrderBookItem>,
    by_price_quantity: bool,
    factor: u64,
    amount: int,
    n: int,
)
    requires
        0 <= n <= items.len(),
    ensures
        0 <= rungs_within(items, by_price_quantity, factor, amount, n) <= n,
        rungs_within(items, by_price_quantity, factor, amount, n) > 0 ==> rung_consumed(
            items[rungs_within(items, by_price_quantity, factor, amount, n) - 1],
            by_price_quantity,
            factor,
            amount,
        ),
        forall|i: int|
            rungs_within(items, by_price_quantity, factor, amount, n) <= i < n ==> !rung_consumed(
                #[trigger] items[i],
                by_price_quantity,
                factor,
                amount,
            ),
    decreases n,
{
    if n > 0 {
        lemma_rungs_within_facts(items, by_price_quantity, factor, amount, n - 1);
    }
}

proof fn lemma_consumed_grows(item: OrderBookItem, by_price_quantity: bool, factor: u64, a1: int, a2: int)
    requires
        a1 <= a2,
        rung_consumed(item, by_price_quantity, factor, a1),
    ensures
        rung_consumed(item, by_price_quantity, factor, a2),
{
    assert(a1 * factor as int <= a2 * factor as int) by (nonlinear_arith)
        requires a1 <= a2, factor >= 0;
}

/// A larger amount consumes at least as many rungs.
pub proof fn lemma_rungs_within_monotone(
    items: Seq<OrderBookItem>,
    by_price_quantity: bool,
    factor: u64,
    a1: int,
    a2: int,
    n: int,
)
    requires
        a1 <= a2,
        0 <= n <= items.len(),
    ensures
        rungs_within(items, by_price_quantity, factor, a1, n) <= rungs_within(items, by_price_quantity, factor, a2, n),
    decreases n,
{
    if n > 0 {
        lemma_rungs_within_monotone(items, by_price_quantity, factor, a1, a2, n - 1);
        lemma_rungs_within_facts(items, by_price_quantity, factor, a1, n - 1);
        if rung_consumed(items[n - 1], by_price_quantity, factor, a1) {
            lemma_consumed_grows(items[n - 1], by_price_quantity, factor, a1, a2);
        }
    }
}

/// Checks that the cumulative sums never fall along the ladder.
fn check_sums_sorted(items: &Vec<OrderBookItem>) -> (r: bool)
    ensures
        r == sums_sorted(items@),
{
    let mut k: usize = 1;
    while k < items.len()
        invariant
            1 <= k,
            k <= items@.len() || items@.len() == 0,
            forall|i: int, j: int|
                #![trigger items@[i], items@[j]]
                0 <= i <= j < k && j < items@.len() ==> items@[i].quantity_sum <= items@[j].quantity_sum
                    && items@[i].price_quantity_sum <= items@[j].price_quantity_sum,
        decreases items@.len() - k,
    {
        if items[k - 1].quantity_sum > items[k].quantity_sum
            || items[k - 1].price_quantity_sum > items[k].price_quantity_sum {
            assert(!sums_sorted(items@)) by {
                let i = k - 1;
                let j = k as int;
                assert(items@[i].quantity_sum > items@[j].quantity_sum
                    || items@[i].price_quantity_sum > items@[j].price_quantity_sum);
            }
            return false;
        }
        assert forall|i: int, j: int|
            #![trigger items@[i], items@[j]]
            0 <= i <= j < k + 1 && j < items@.len() implies items@[i].quantity_sum <= items@[j].quantity_sum
                && items@[i].price_quantity_sum <= items@[j].price_quantity_sum by {
            if j == k && i < k {
                let p = k - 1;
                assert(items@[i].quantity_sum <= items@[p].quantity_sum);
            }
        }
        k = k + 1;
    }
    true
}

/// Binary search for how many rungs `amount` consumes in full.
fn count_consumed_rungs(items: &Vec<OrderBookItem>, by_price_quantity: bool, factor: u64, amount: u64) -> (r: usize)
    requires
        sums_sorted(items@),
    ensures
        r == consumed_rungs(items@, by_price_quantity, factor, amount as int),
        r <= items@.len(),
{
    assert(amount as int * factor as int <= u64::MAX as int * u64::MAX as int) by (nonlinear_arith);
    // The quote budget in the units of the price-quantity sums.
    let scaled: u128 = amount as u128 * factor as u128;
    let mut low: usize = 0;
    let mut high: usize = items.len();
    while low < high
        invariant
            low <= high <= items@.len(),
            sums_sorted(items@),
            scaled == amount as int * factor as int,
            forall|i: int| 0 <= i < low ==> rung_consumed(#[trigger] items@[i], by_price_quantity, factor, amount as int),
            forall|i: int| high <= i < items@.len() ==> !rung_consumed(#[trigger] items@[i], by_price_quantity, factor, amount as int),
        decreases high - low,
    {
        let mid = low + (high - low) / 2;
        let consumed = if by_price_quantity {
            items[mid].price_quantity_sum <= scaled
        } else {
            items[mid].quantity_sum <= amount
        };
        if consumed {
            assert forall|i: int| 0 <= i < mid + 1 implies rung_consumed(#[trigger] items@[i], by_price_quantity, factor, amount as int) by {
                lemma_consumed_sorted(items@, by_price_quantity, factor, amount as int, i, mid as int);
            }
            low = mid + 1;
        } else {
            assert forall|i: int| mid <= i < items@.len() implies !rung_consumed(#[trigger] items@[i], by_price_quantity, factor, amount as int) by {
                if rung_consumed(items@[i], by_price_quantity, factor, amount as int) {
                    lemma_consumed_sorted(items@, by_price_quantity, factor, amount as int, mid as int, i);
                }
            }
            high = mid;
        }
    }
    proof {
        lemma_rungs_within_is(items@, by_price_quantity, factor, amount as int, low as int, items@.len() as int);
    }
    low
}

/// Whether every rung of the ladder has a nonzero price.
pub open spec fn prices_positive(items: Seq<OrderBookItem>) -> bool {
    forall|i: int| 0 <= i < items.len() ==> #[trigger] items[i].price > 0
}

/// `amount` rounded down to a multiple of `lot_size`.
pub open spec fn round_to_lot(amount: int, lot_size: int) -> int {
    amount / lot_size * lot_size
}

/// `amount` less the fee `amount * fee_numerator / fee_denominator`.
pub open spec fn take_fee(amount: u64, fee_numerator: u64, fee_denominator: u64) -> Option<u64> {
    match mul_div(amount, fee_numerator, fee_denominator) {
        None => None,
        Some(fee) => if fee > amount {
            None
        } else {
            Some((amount - fee) as u64)
        },
    }
}

/// The base quantity a quote budget buys. A budget that pays for no rung in
/// full buys at the first rung's price. Otherwise it buys everything through
/// the last rung it pays for, and spends exactly what is left on the next
/// rung. This holds also when the search ends at the first rung: the leftover
/// fills part of the second rung. That way a larger budget never buys less,
/// and no base is handed out beyond what the budget pays for.
pub open spec fn buy_with_budget(budget: int, asks: Seq<OrderBookItem>, base_decimal_factor: u64) -> Option<u64> {
    let c = consumed_rungs(asks, true, base_decimal_factor, budget);
    if c == 0 {
        mul_div(budget as u64, base_decimal_factor, asks[0].price)
    } else {
        let i = c - 1;
        let left = budget * base_decimal_factor as int - asks[i].price_quantity_sum as int;
        let next = if c == asks.len() {
            Some(0u64)
        } else if asks[c].price == 0 || left / asks[c].price as int > u64::MAX {
            None
        } else {
            Some((left / asks[c].price as int) as u64)
        };
        match next {
            None => None,
            Some(n) => if asks[i].quantity_sum as int + n as int > u64::MAX {
                None
            } else {
                Some((asks[i].quantity_sum as int + n as int) as u64)
            },
        }
    }
}

/// The quote amount an amount of base currency brings before fees, searched
/// in the same way by quantity sum. As for buying, an amount that consumes
/// the first rung and more sells the excess at the next rung's price.
pub open spec fn sell_proceeds(amount: int, bids: Seq<OrderBookItem>, base_decimal_factor: u64) -> Option<u64> {
    let c = consumed_rungs(bids, false, base_decimal_factor, amount);
    if c == 0 {
        mul_div(amount as u64, bids[0].price, base_decimal_factor)
    } else {
        let i = c - 1;
        let through = bids[i].price_quantity_sum as int / base_decimal_factor as int;
        let next = if c == bids.len() {
            Some(0u64)
        } else {
            mul_div((amount - bids[i].quantity_sum) as u64, bids[c].price, base_decimal_factor)
        };
        match next {
            None => None,
            Some(n) => if through + n as int > u64::MAX {
                None
            } else {
                Some((through + n as int) as u64)
            },
        }
    }
}

/// Whether a ladder and its parameters can be simulated at all.
pub open spec fn ladder_usable(items: Seq<OrderBookItem>, base_decimal_factor: u64, lot_size: u64) -> bool {
    lot_size > 0 && base_decimal_factor > 0 && items.len() > 0 && sums_sorted(items)
}

/// The base quantity bought for `amount_in` of quote currency: the taker fee
/// is taken first and the rest rounded down to a quote lot. `None` for an
/// unusable ladder, a fee fraction above one, or a step that overflows or
/// divides by a zero price.
pub open spec fn buy_amount_out(
    amount_in: u64,
    asks: Seq<OrderBookItem>,
    fee_numerator: u64,
    fee_denominator: u64,
    base_decimal_factor: u64,
    pc_lot_size: u64,
) -> Option<u64> {
    if !ladder_usable(asks, base_decimal_factor, pc_lot_size) {
        None
    } else {
        match take_fee(amount_in, fee_numerator, fee_denominator) {
            None => None,
            Some(after_fee) => buy_with_budget(round_to_lot(after_fee as int, pc_lot_size as int), asks, base_decimal_factor),
        }
    }
}

/// The quote amount received for selling `amount_in` of base currency: the
/// amount is rounded down to a coin lot, the proceeds are found on the
/// ladder, and the taker fee is taken from them. `None` for an unusable
/// ladder, a fee fraction above one, or a step that overflows.
pub open spec fn sell_amount_out(
    amount_in: u64,
    bids: Seq<OrderBookItem>,
    fee_numerator: u64,
    fee_denominator: u64,
    base_decimal_factor: u64,
    coin_lot_size: u64,
) -> Option<u64> {
    if !ladder_usable(bids, base_decimal_factor, coin_lot_size) {
        None
    } else {
        match sell_proceeds(round_to_lot(amount_in as int, coin_lot_size as int), bids, base_decimal_factor) {
            None => None,
            Some(proceeds) => take_fee(proceeds, fee_numerator, fee_denominator),
        }
    }
}

proof fn lemma_round_to_lot(amount: int, lot_size: int)
    requires
        0 <= amount,
        0 < lot_size,
    ensures
        0 <= round_to_lot(amount, lot_size) <= amount,
{
    assert(0 <= amount / lot_size * lot_size <= amount) by (nonlinear_arith)
        requires 0 <= amount, 0 < lot_size;
}

fn subtract_fee(amount: u64, fee_numerator: u64, fee_denominator: u64) -> (r: Option<u64>)
    ensures
        r == take_fee(amount, fee_numerator, fee_denominator),
{
    match mul_div_u64(amount, fee_numerator, fee_denominator) {
        Some(fee) => if fee > amount {
            None
        } else {
            Some(amount - fee)
        },
        None => None,
    }
}

fn usable(items: &Vec<OrderBookItem>, base_decimal_factor: u64, lot_size: u64) -> (r: bool)
    ensures
        r == ladder_usable(items@, base_decimal_factor, lot_size),
{
    lot_size > 0 && base_decimal_factor > 0 && items.len() > 0 && check_sums_sorted(items)
}

/// Simulates buying base currency with `amount_in` of quote currency against
/// the asks ladder.
pub fn buy_coin_amount_out(
    amount_in: u64,
    asks: &Vec<OrderBookItem>,
    fee_numerator: u64,
    fee_denominator: u64,
    base_decimal_factor: u64,
    pc_lot_size: u64,
) -> (r: Option<u64>)
    ensures
        r == buy_amount_out(amount_in, asks@, fee_numerator, fee_denominator, base_decimal_factor, pc_lot_size),
{
    if !usable(asks, base_decimal_factor, pc_lot_size) {
        return None;
    }
    // The fee comes off the amount in, as the quote currency pays for the base.
    let after_fee = match subtract_fee(amount_in, fee_numerator, fee_denominator) {
        Some(a) => a,
        None => return None,
    };
    proof {
        lemma_round_to_lot(after_fee as int, pc_lot_size as int);
    }
    // Quote lots are filled whole, after the fee.
    let amount_avail: u64 = after_fee / pc_lot_size * pc_lot_size;
    let consumed = count_consumed_rungs(asks, true, base_decimal_factor, amount_avail);
    if consumed == 0 {
        return mul_div_u64(amount_avail, base_decimal_factor, asks[0].price);
    }
    // Everything through the last rung consumed, then what is left on the next rung.
    let base_index = consumed - 1;
    proof {
        lemma_rungs_within_facts(asks@, true, base_decimal_factor, amount_avail as int, asks@.len() as int);
    }
    let next = if consumed == asks.len() {
        0
    } else {
        let price = asks[consumed].price;
        if price == 0 {
            return None;
        }
        assert(amount_avail as int * base_decimal_factor as int <= u64::MAX as int * u64::MAX as int) by (nonlinear_arith);
        let left: u128 = amount_avail as u128 * base_decimal_factor as u128 - asks[base_index].price_quantity_sum;
        let n: u128 = left / (price as u128);
        if n > u64::MAX as u128 {
            return None;
        }
        n as u64
    };
    asks[base_index].quantity_sum.checked_add(next)
}

/// Simulates selling `amount_in` of base currency against the bids ladder.
pub fn sell_coin_amount_out(
    amount_in: u64,
    bids: &Vec<OrderBookItem>,
    fee_numerator: u64,
    fee_denominator: u64,
    base_decimal_factor: u64,
    coin_lot_size: u64,
) -> (r: Option<u64>)
    ensures
        r == sell_amount_out(amount_in, bids@, fee_numerator, fee_denominator, base_decimal_factor, coin_lot_size),
{
    if !usable(bids, base_decimal_factor, coin_lot_size) {
        return None;
    }
    proof {
        lemma_round_to_lot(amount_in as int, coin_lot_size as int);
    }
    let amount_avail: u64 = amount_in / coin_lot_size * coin_lot_size;
    let consumed = count_consumed_rungs(bids, false, base_decimal_factor, amount_avail);
    let proceeds = if consumed == 0 {
        match mul_div_u64(amount_avail, bids[0].price, base_decimal_factor) {
            Some(p) => p,
            None => return None,
        }
    } else {
        let base_index = consumed - 1;
        proof {
            lemma_rungs_within_facts(bids@, false, base_decimal_factor, amount_avail as int, bids@.len() as int);
        }
        let through: u128 = bids[base_index].price_quantity_sum / (base_decimal_factor as u128);
        if through > u64::MAX as u128 {
            return None;
        }
        let rest: u64 = amount_avail - bids[base_index].quantity_sum;
        let next = if consumed == bids.len() {
            0
        } else {
            match mul_div_u64(rest, bids[consumed].price, base_decimal_factor) {
                Some(n) => n,
                None => return None,
            }
        };
        match (through as u64).checked_add(next) {
            Some(out) => out,
            None => return None,
        }
    };
    // The fee comes off the quote currency received.
    subtract_fee(proceeds, fee_numerator, fee_denominator)
}


/// Whether each rung's sums are the previous rung's sums plus its own
/// quantity and price x quantity.
pub open spec fn ladder_consistent(items: Seq<OrderBookItem>) -> bool {
    &&& items.len() > 0
    &&& items[0].quantity_sum == items[0].quantity
    &&& items[0].price_quantity_sum == items[0].price as int * items[0].quantity as int
    &&& forall|i: int|
        0 < i < items.len() ==> (#[trigger] items[i]).quantity_sum == items[i - 1].quantity_sum as int
            + items[i].quantity as int && items[i].price_quantity_sum == items[i - 1].price_quantity_sum
            as int + items[i].price as int * items[i].quantity as int
}

/// Whether every rung's price x quantity is a whole multiple of `factor`.
pub open spec fn lines_divisible(items: Seq<OrderBookItem>, factor: u64) -> bool {
    forall|i: int| 0 <= i < items.len() ==> (#[trigger] items[i]).price as int * items[i].quantity as int % factor as int == 0
}

/// On a consistent ladder the sums rise with the rung, equal quantity sums
/// mean equal price-quantity sums, and (with nonzero prices) the converse.
proof fn lemma_consistent_sums(items: Seq<OrderBookItem>, j: int, i: int)
    requires
        ladder_consistent(items),
        0 <= j <= i < items.len(),
    ensures
        items[j].quantity_sum <= items[i].quantity_sum,
        items[j].price_quantity_sum <= items[i].price_quantity_sum,
        items[j].quantity_sum == items[i].quantity_sum ==> items[j].price_quantity_sum == items[i].price_quantity_sum,
        prices_positive(items) && items[j].price_quantity_sum == items[i].price_quantity_sum ==> items[j].quantity_sum
            == items[i].quantity_sum,
    decreases i - j,
{
    if j < i {
        lemma_consistent_sums(items, j, i - 1);
        let p = items[i].price as int;
        let q = items[i].quantity as int;
        assert(items[i].price_quantity_sum == items[i - 1].price_quantity_sum as int + p * q);
        assert(p * q >= 0) by (nonlinear_arith)
            requires p >= 0, q >= 0;
        if q == 0 {
            assert(p * q == 0) by (nonlinear_arith)
                requires q == 0;
        }
        if p > 0 && p * q == 0 {
            assert(q == 0) by (nonlinear_arith)
                requires p > 0, p * q == 0, q >= 0;
        }
    }
}

/// A consistent ladder has sorted sums.
pub proof fn lemma_consistent_sorted(items: Seq<OrderBookItem>)
    requires
        ladder_consistent(items),
    ensures
        sums_sorted(items),
{
    assert forall|i: int, j: int|
        #![trigger items[i], items[j]]
        0 <= i <= j < items.len() implies items[i].quantity_sum <= items[j].quantity_sum
            && items[i].price_quantity_sum <= items[j].price_quantity_sum by {
        lemma_consistent_sums(items, i, j);
    }
}

proof fn lemma_sums_divisible(items: Seq<OrderBookItem>, factor: u64, i: int)
    requires
        ladder_consistent(items),
        lines_divisible(items, factor),
        factor > 0,
        0 <= i < items.len(),
    ensures
        items[i].price_quantity_sum as int % factor as int == 0,
    decreases i,
{
    if i > 0 {
        lemma_sums_divisible(items, factor, i - 1);
        let a = items[i - 1].price_quantity_sum as int;
        let b = items[i].price as int * items[i].quantity as int;
        let f = factor as int;
        vstd::arithmetic::div_mod::lemma_add_mod_noop(a, b, f);
        assert(0int % f == 0);
    }
}

/// Selling exactly the quantity sum through rung `j`, fee-free and
/// lot-aligned, returns exactly the price-quantity sum through rung `j` in
/// quote decimals.
pub proof fn lemma_sell_through_rung(
    bids: Seq<OrderBookItem>,
    j: int,
    fee_denominator: u64,
    base_decimal_factor: u64,
    coin_lot_size: u64,
)
    requires
        ladder_consistent(bids),
        0 <= j < bids.len(),
        coin_lot_size > 0,
        bids[j].quantity_sum as int % coin_lot_size as int == 0,
        base_decimal_factor > 0,
        fee_denominator > 0,
        bids[j].price_quantity_sum as int / base_decimal_factor as int <= u64::MAX,
    ensures
        sell_amount_out(bids[j].quantity_sum, bids, 0, fee_denominator, base_decimal_factor, coin_lot_size)
            == Some((bids[j].price_quantity_sum / base_decimal_factor as u128) as u64),
{
    lemma_consistent_sorted(bids);
    let a = bids[j].quantity_sum as int;
    let lot = coin_lot_size as int;
    let f = base_decimal_factor;
    assert(round_to_lot(a, lot) == a) by (nonlinear_arith)
        requires a % lot == 0, lot > 0;
    lemma_rungs_within_facts(bids, false, f, a, bids.len() as int);
    let c = consumed_rungs(bids, false, f, a);
    assert(c > j);
    let i = c - 1;
    lemma_consistent_sums(bids, j, i);
    if c < bids.len() {
        assert(0int * bids[c].price as int / f as int == 0) by (nonlinear_arith)
            requires f > 0;
    }
    let out = (bids[j].price_quantity_sum / f as u128) as u64;
    assert(out as int * 0 / fee_denominator as int == 0) by (nonlinear_arith)
        requires fee_denominator > 0;
}

/// A budget of exactly the quote amount through rung `j` buys exactly the
/// quantity sum through rung `j`.
proof fn lemma_budget_at_rung(asks: Seq<OrderBookItem>, j: int, f: u64)
    requires
        ladder_consistent(asks),
        prices_positive(asks),
        lines_divisible(asks, f),
        0 <= j < asks.len(),
        f > 0,
        asks[j].price_quantity_sum as int / f as int <= u64::MAX,
    ensures
        buy_with_budget(asks[j].price_quantity_sum as int / f as int, asks, f) == Some(asks[j].quantity_sum),
{
    lemma_consistent_sorted(asks);
    let a = asks[j].price_quantity_sum as int / f as int;
    let pj = asks[j].price_quantity_sum as int;
    lemma_sums_divisible(asks, f, j);
    assert(a * f as int == pj) by (nonlinear_arith)
        requires a == pj / (f as int), pj % (f as int) == 0, f > 0;
    lemma_rungs_within_facts(asks, true, f, a, asks.len() as int);
    let c = consumed_rungs(asks, true, f, a);
    assert(c > j);
    let i = c - 1;
    assert(asks[i].price_quantity_sum as int <= pj);
    lemma_consistent_sums(asks, j, i);
    if c < asks.len() {
        assert(asks[c].price > 0);
        assert(0int / asks[c].price as int == 0);
    }
}

/// Buying with exactly the quote amount through rung `j` (its price-quantity
/// sum over the decimals factor), fee-free and lot-aligned, returns exactly
/// the quantity sum through rung `j`, where every rung's price x quantity is a
/// whole number of quote units.
pub proof fn lemma_buy_through_rung(
    asks: Seq<OrderBookItem>,
    j: int,
    fee_denominator: u64,
    base_decimal_factor: u64,
    pc_lot_size: u64,
)
    requires
        ladder_consistent(asks),
        prices_positive(asks),
        lines_divisible(asks, base_decimal_factor),
        0 <= j < asks.len(),
        base_decimal_factor > 0,
        asks[j].price_quantity_sum as int / base_decimal_factor as int <= u64::MAX,
        pc_lot_size > 0,
        (asks[j].price_quantity_sum as int / base_decimal_factor as int) % pc_lot_size as int == 0,
        fee_denominator > 0,
    ensures
        buy_amount_out(
            (asks[j].price_quantity_sum / base_decimal_factor as u128) as u64,
            asks,
            0,
            fee_denominator,
            base_decimal_factor,
            pc_lot_size,
        ) == Some(asks[j].quantity_sum),
{
    lemma_consistent_sorted(asks);
    let f = base_decimal_factor;
    let a = asks[j].price_quantity_sum as int / f as int;
    let x = (asks[j].price_quantity_sum / f as u128) as u64;
    assert(x == a);
    let lot = pc_lot_size as int;
    lemma_fee_at_most(x, 0, fee_denominator);
    assert(take_fee(x, 0, fee_denominator) == Some(x));
    assert(round_to_lot(a, lot) == a) by (nonlinear_arith)
        requires a % lot == 0, lot > 0;
    lemma_budget_at_rung(asks, j, f);
}

proof fn lemma_fee_at_most(x: u64, fee_numerator: u64, fee_denominator: u64)
    requires
        fee_numerator <= fee_denominator,
        fee_denominator > 0,
    ensures
        take_fee(x, fee_numerator, fee_denominator) is Some,
        take_fee(x, fee_numerator, fee_denominator)->0 <= x,
        take_fee(x, 0, fee_denominator) == Some(x),
{
    assert(0 <= x as int * fee_numerator as int / fee_denominator as int <= x) by (nonlinear_arith)
        requires fee_numerator <= fee_denominator, fee_denominator > 0, x >= 0;
    assert(x as int * 0 / fee_denominator as int == 0) by (nonlinear_arith)
        requires fee_denominator > 0;
}

/// Selling with a fee fraction of at most one succeeds exactly when selling
/// fee-free does, and never returns more.
pub proof fn lemma_sell_fee_monotone(
    amount_in: u64,
    bids: Seq<OrderBookItem>,
    fee_numerator: u64,
    fee_denominator: u64,
    base_decimal_factor: u64,
    coin_lot_size: u64,
)
    requires
        fee_numerator <= fee_denominator,
        fee_denominator > 0,
    ensures
        sell_amount_out(amount_in, bids, fee_numerator, fee_denominator, base_decimal_factor, coin_lot_size) is Some
            == sell_amount_out(amount_in, bids, 0, fee_denominator, base_decimal_factor, coin_lot_size) is Some,
        sell_amount_out(amount_in, bids, fee_numerator, fee_denominator, base_decimal_factor, coin_lot_size) is Some
            ==> sell_amount_out(amount_in, bids, fee_numerator, fee_denominator, base_decimal_factor, coin_lot_size)->0
            <= sell_amount_out(amount_in, bids, 0, fee_denominator, base_decimal_factor, coin_lot_size)->0,
{
    if ladder_usable(bids, base_decimal_factor, coin_lot_size) {
        let proceeds = sell_proceeds(round_to_lot(amount_in as int, coin_lot_size as int), bids, base_decimal_factor);
        if proceeds is Some {
            lemma_fee_at_most(proceeds->0, fee_numerator, fee_denominator);
        }
    }
}

proof fn lemma_mul_div_monotone(a1: u64, a2: u64, b: u64, d: u64)
    requires
        a1 <= a2,
        d > 0,
    ensures
        a1 as int * b as int / d as int <= a2 as int * b as int / d as int,
{
    assert(a1 as int * b as int <= a2 as int * b as int) by (nonlinear_arith)
        requires a1 <= a2, b >= 0;
    vstd::arithmetic::div_mod::lemma_div_is_ordered(a1 as int * b as int, a2 as int * b as int, d as int);
}

/// A budget that consumes `c` rungs, and not rung `c`, buys at most the
/// quantity sum through rung `c`.
#[verifier::rlimit(30)]
proof fn lemma_budget_below_next_rung(budget: int, asks: Seq<OrderBookItem>, f: u64)
    requires
        ladder_consistent(asks),
        prices_positive(asks),
        f > 0,
        0 <= budget <= u64::MAX,
        consumed_rungs(asks, true, f, budget) < asks.len(),
        buy_with_budget(budget, asks, f) is Some,
    ensures
        buy_with_budget(budget, asks, f)->0 <= asks[consumed_rungs(asks, true, f, budget)].quantity_sum,
{
    lemma_rungs_within_facts(asks, true, f, budget, asks.len() as int);
    let c = consumed_rungs(asks, true, f, budget);
    let scaled = budget * f as int;
    let p = asks[c].price as int;
    let q = asks[c].quantity as int;
    assert(p > 0);
    assert(!rung_consumed(asks[c], true, f, budget));
    assert(scaled < asks[c].price_quantity_sum as int);
    if c == 0 {
        assert(asks[0].price_quantity_sum as int == p * q);
        assert(scaled / p <= q) by (nonlinear_arith)
            requires scaled < p * q, p > 0, scaled >= 0;
        assert(buy_with_budget(budget, asks, f)->0 as int == scaled / p);
        assert(asks[0].quantity_sum as int == q);
    } else {
        let i = c - 1;
        let a = asks[i].price_quantity_sum as int;
        assert(rung_consumed(asks[i], true, f, budget));
        assert(asks[c].price_quantity_sum as int == a + p * q);
        let left = scaled - a;
        assert(0 <= left < p * q);
        assert(left / p <= q) by (nonlinear_arith)
            requires left < p * q, p > 0, left >= 0;
        assert(buy_with_budget(budget, asks, f)->0 as int == asks[i].quantity_sum as int + left / p);
        assert(asks[c].quantity_sum == asks[i].quantity_sum as int + q);
    }
}

/// What a budget that consumes at least one rung buys is at least the
/// quantity sum through the last rung it consumes.
proof fn lemma_budget_through_rung(budget: int, asks: Seq<OrderBookItem>, f: u64)
    requires
        f > 0,
        consumed_rungs(asks, true, f, budget) > 0,
        buy_with_budget(budget, asks, f) is Some,
    ensures
        buy_with_budget(budget, asks, f)->0 >= asks[consumed_rungs(asks, true, f, budget) - 1].quantity_sum,
{
}

/// With a consistent ladder, a larger quote budget never buys less.
pub proof fn lemma_buy_budget_monotone(b1: int, b2: int, asks: Seq<OrderBookItem>, f: u64)
    requires
        ladder_consistent(asks),
        prices_positive(asks),
        f > 0,
        0 <= b1 <= b2 <= u64::MAX,
        buy_with_budget(b1, asks, f) is Some,
        buy_with_budget(b2, asks, f) is Some,
    ensures
        buy_with_budget(b1, asks, f)->0 <= buy_with_budget(b2, asks, f)->0,
{
    lemma_consistent_sorted(asks);
    let n = asks.len() as int;
    lemma_rungs_within_monotone(asks, true, f, b1, b2, n);
    lemma_rungs_within_facts(asks, true, f, b1, n);
    lemma_rungs_within_facts(asks, true, f, b2, n);
    let c1 = consumed_rungs(asks, true, f, b1);
    let c2 = consumed_rungs(asks, true, f, b2);
    if c1 == c2 {
        if c1 == 0 {
            lemma_mul_div_monotone(b1 as u64, b2 as u64, f, asks[0].price);
        } else if c1 < n {
            let a = asks[c1 - 1].price_quantity_sum as int;
            let p = asks[c1].price as int;
            assert(p > 0);
            let l1 = b1 * f as int - a;
            let l2 = b2 * f as int - a;
            assert(l1 <= l2) by (nonlinear_arith)
                requires b1 <= b2, f >= 0, l1 == b1 * f as int - a, l2 == b2 * f as int - a;
            vstd::arithmetic::div_mod::lemma_div_is_ordered(l1, l2, p);
        }
    } else {
        lemma_budget_below_next_rung(b1, asks, f);
        lemma_budget_through_rung(b2, asks, f);
        lemma_consistent_sums(asks, c1, c2 - 1);
    }
}

/// Buying with a fee fraction of at most one never returns more than buying
/// fee-free.
pub proof fn lemma_buy_fee_monotone(
    amount_in: u64,
    asks: Seq<OrderBookItem>,
    fee_numerator: u64,
    fee_denominator: u64,
    base_decimal_factor: u64,
    pc_lot_size: u64,
)
    requires
        ladder_consistent(asks),
        prices_positive(asks),
        fee_numerator <= fee_denominator,
        fee_denominator > 0,
        buy_amount_out(amount_in, asks, fee_numerator, fee_denominator, base_decimal_factor, pc_lot_size) is Some,
        buy_amount_out(amount_in, asks, 0, fee_denominator, base_decimal_factor, pc_lot_size) is Some,
    ensures
        buy_amount_out(amount_in, asks, fee_numerator, fee_denominator, base_decimal_factor, pc_lot_size)->0
            <= buy_amount_out(amount_in, asks, 0, fee_denominator, base_decimal_factor, pc_lot_size)->0,
{
    lemma_fee_at_most(amount_in, fee_numerator, fee_denominator);
    let lot = pc_lot_size as int;
    let x1 = take_fee(amount_in, fee_numerator, fee_denominator)->0 as int;
    let x2 = amount_in as int;
    vstd::arithmetic::div_mod::lemma_div_is_ordered(x1, x2, lot);
    assert(x1 / lot * lot <= x2 / lot * lot) by (nonlinear_arith)
        requires x1 / lot <= x2 / lot, lot > 0;
    lemma_round_to_lot(x1, lot);
    lemma_round_to_lot(x2, lot);
    lemma_buy_budget_monotone(round_to_lot(x1, lot), round_to_lot(x2, lot), asks, base_decimal_factor);
}

} // verus!
