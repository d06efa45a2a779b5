use poseidon::order_book::{buy_coin_amount_out, sell_coin_amount_out, OrderBookItem};

fn rung(price: u64, quantity: u64, prev: Option<&OrderBookItem>) -> OrderBookItem {
    let (qs, pqs) = match prev {
        Some(p) => (p.quantity_sum, p.price_quantity_sum),
        None => (0, 0),
    };
    OrderBookItem {
        price,
        quantity,
        quantity_sum: qs + quantity,
        price_quantity_sum: pqs + price as u128 * quantity as u128,
    }
}

fn ladder(levels: &[(u64, u64)]) -> Vec<OrderBookItem> {
    let mut v: Vec<OrderBookItem> = Vec::new();
    for &(p, q) in levels {
        let item = rung(p, q, v.last());
        v.push(item);
    }
    v
}

fn bids() -> Vec<OrderBookItem> {
    ladder(&[(92_805_000, 383_100_000_000), (92_761_000, 977_900_000_000), (92_750_000, 191_300_000_000)])
}

#[test]
fn sell_at_rung_sums_returns_cumulative_output() {
    let book = bids();
    // Every rung, the last included, fee-free and lot-aligned.
    for j in 0..3 {
        let out = sell_coin_amount_out(book[j].quantity_sum, &book, 0, 100_000, 1_000_000_000, 100_000_000);
        assert_eq!(out, Some((book[j].price_quantity_sum / 1_000_000_000) as u64));
    }
}

#[test]
fn sell_through_last_rung_of_two() {
    let book = ladder(&[(2, 10), (1, 10)]);
    assert_eq!(sell_coin_amount_out(20, &book, 0, 100, 1, 1), Some(30));
    assert_eq!(sell_coin_amount_out(10, &book, 0, 100, 1, 1), Some(20));
    // Past the first rung, part of the second: 20 + 5 * 1.
    assert_eq!(sell_coin_amount_out(15, &book, 0, 100, 1, 1), Some(25));
    // Inside the first rung, all at its price.
    assert_eq!(sell_coin_amount_out(4, &book, 0, 100, 1, 1), Some(8));
}

#[test]
fn buy_at_rung_sums_with_unit_factor() {
    let asks = ladder(&[(2, 100), (3, 50), (5, 10)]);
    // price-quantity sums: 200, 350, 400
    assert_eq!(buy_coin_amount_out(200, &asks, 0, 100, 1, 1), Some(100));
    assert_eq!(buy_coin_amount_out(350, &asks, 0, 100, 1, 1), Some(150));
    assert_eq!(buy_coin_amount_out(400, &asks, 0, 100, 1, 1), Some(160));
    let two = ladder(&[(1, 10), (2, 10)]);
    assert_eq!(buy_coin_amount_out(30, &two, 0, 100, 1, 1), Some(20));
}

#[test]
fn buy_at_rung_sums_with_decimals_factor() {
    // Prices in quote decimals per whole base token of 1_000 base units.
    let asks = ladder(&[(2_000, 100), (3_000, 50), (5_000, 10)]);
    for j in 0..3 {
        let quote = (asks[j].price_quantity_sum / 1_000) as u64;
        assert_eq!(buy_coin_amount_out(quote, &asks, 0, 100, 1_000, 1), Some(asks[j].quantity_sum));
    }
}

#[test]
fn buy_partial_fill_of_next_rung() {
    let asks = ladder(&[(2, 100), (3, 50), (5, 10)]);
    // 360 consumes two rungs (sum 350) and buys (360 - 350) / 5 = 2 more.
    assert_eq!(buy_coin_amount_out(360, &asks, 0, 100, 1, 1), Some(152));
    // 300 consumes the first rung and buys (300 - 200) / 3 = 33 more.
    assert_eq!(buy_coin_amount_out(300, &asks, 0, 100, 1, 1), Some(133));
    // 150 consumes no rung: all of it at the first price.
    assert_eq!(buy_coin_amount_out(150, &asks, 0, 100, 1, 1), Some(75));
    // Past the whole ladder, the ladder is all there is.
    assert_eq!(buy_coin_amount_out(10_000, &asks, 0, 100, 1, 1), Some(160));
}

#[test]
fn sell_fee_never_raises_output() {
    let book = bids();
    for x in [100_000_000u64, 1_000_000_000, 400_000_000_000, 1_400_000_000_000, 1_552_300_000_000] {
        let with_fee = sell_coin_amount_out(x, &book, 20, 100_000, 1_000_000_000, 100_000_000).unwrap();
        let free = sell_coin_amount_out(x, &book, 0, 100_000, 1_000_000_000, 100_000_000).unwrap();
        assert!(with_fee <= free);
        // The fee is taken from the proceeds, on the first rung as on later ones.
        assert_eq!(with_fee, free - free * 20 / 100_000);
    }
}

#[test]
fn buy_fee_never_raises_output() {
    let asks = ladder(&[(2, 100), (3, 50), (5, 10)]);
    // 300 - 3 = 297: 100 + 97 / 3 = 132
    assert_eq!(buy_coin_amount_out(300, &asks, 1, 100, 1, 1), Some(132));
    assert_eq!(buy_coin_amount_out(300, &asks, 0, 100, 1, 1), Some(133));
    // A fee that drops the budget below a rung's sum does not raise the output.
    let cliff = ladder(&[(1, 10), (2, 10), (100, 1)]);
    let free = buy_coin_amount_out(30, &cliff, 0, 30, 1, 1).unwrap();
    let with_fee = buy_coin_amount_out(30, &cliff, 1, 30, 1, 1).unwrap();
    assert_eq!(free, 20);
    assert_eq!(with_fee, 19);
    for x in 0u64..200 {
        let free = buy_coin_amount_out(x, &cliff, 0, 30, 1, 1).unwrap();
        let with_fee = buy_coin_amount_out(x, &cliff, 1, 30, 1, 1).unwrap();
        assert!(with_fee <= free, "{}", x);
    }
}

#[test]
fn lot_rounding_happens_before_search() {
    let book = bids();
    // 1.5 lots of 1e8 round down to one lot: 9_280_500 less 1_856 of fee.
    let out = sell_coin_amount_out(150_000_000, &book, 20, 100_000, 1_000_000_000, 100_000_000);
    assert_eq!(out, Some(9_278_644));
}

#[test]
fn simulators_fail_on_bad_parameters() {
    let book = bids();
    let empty: Vec<OrderBookItem> = Vec::new();
    assert_eq!(sell_coin_amount_out(1, &empty, 0, 1, 1, 1), None);
    assert_eq!(buy_coin_amount_out(1, &empty, 0, 1, 1, 1), None);
    assert_eq!(sell_coin_amount_out(1, &book, 0, 1, 1, 0), None);
    assert_eq!(buy_coin_amount_out(1, &book, 0, 1, 1, 0), None);
    assert_eq!(buy_coin_amount_out(1, &book, 0, 0, 1, 1), None);
    // A fee fraction above one would take more than the input.
    assert_eq!(buy_coin_amount_out(100, &book, 2, 1, 1, 1), None);
    // A zero decimals factor cannot scale the sums.
    assert_eq!(sell_coin_amount_out(1_000_000_000, &book, 0, 1, 0, 100_000_000), None);
    // Sums that fall along the ladder are no ladder.
    let mut unsorted = bids();
    unsorted.swap(0, 2);
    assert_eq!(sell_coin_amount_out(1_000_000_000, &unsorted, 0, 1, 1_000_000_000, 100_000_000), None);
    assert_eq!(buy_coin_amount_out(1_000_000_000, &unsorted, 0, 1, 1_000_000_000, 100), None);
}

#[test]
fn sell_inside_first_rung_takes_fee() {
    let book = vec![
        OrderBookItem {
            price: 92750000,
            quantity: 191300000000,
            quantity_sum: 191300000000,
            price_quantity_sum: 17_743_075_000_000_000_000u128,
        },
        OrderBookItem {
            price: 92761000,
            quantity: 977900000000,
            quantity_sum: 1169200000000,
            price_quantity_sum: 108_454_056_900_000_000_000u128,
        },
        OrderBookItem {
            price: 92805000,
            quantity: 383100000000,
            quantity_sum: 1552300000000,
            price_quantity_sum: 144_007_652_400_000_000_000u128,
        },
    ];
    // 92_750_000 of proceeds less 18_550 of fee.
    assert_eq!(sell_coin_amount_out(1_000_000_000, &book, 20, 100_000, 1_000_000_000, 100_000_000), Some(92_731_450));
}

#[test]
fn buy_gives_no_base_beyond_what_is_paid_for() {
    let asks = vec![
        OrderBookItem { price: 10, quantity: 10, quantity_sum: 10, price_quantity_sum: 100 },
        OrderBookItem { price: 10, quantity: 5, quantity_sum: 15, price_quantity_sum: 150 },
    ];
    // One quote unit (100 in price-quantity units) pays for the first rung only.
    assert_eq!(buy_coin_amount_out(1, &asks, 0, 1, 100, 1), Some(10));
    // Two pay for both.
    assert_eq!(buy_coin_amount_out(2, &asks, 0, 1, 100, 1), Some(15));
    // Below the first rung's cost, everything at its price: 0 * 100 / 10.
    assert_eq!(buy_coin_amount_out(0, &asks, 0, 1, 100, 1), Some(0));
}

#[test]
fn buy_partial_fill_spends_exactly_what_is_left() {
    // First rung costs 1.5 quote units (150 / 100); a budget of 2 leaves
    // 50 price-quantity units, which buy 50 / 10 = 5 of the second rung.
    let asks = vec![
        OrderBookItem { price: 10, quantity: 15, quantity_sum: 15, price_quantity_sum: 150 },
        OrderBookItem { price: 10, quantity: 10, quantity_sum: 25, price_quantity_sum: 250 },
    ];
    assert_eq!(buy_coin_amount_out(2, &asks, 0, 1, 100, 1), Some(20));
}
