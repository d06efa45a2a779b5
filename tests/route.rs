use poseidon::dex::{Leg, OpenBookDex};
use poseidon::order_book::OrderBookItem;
use poseidon::route::{check_realized_trade, is_in_bounds, Route};
use poseidon::errors::ErrorCode;

fn mock_open_book_route(route: &mut Route, trade_is_bid: bool) {
    let order_book = if trade_is_bid {
        vec![
            OrderBookItem {
                price: 92750000,
                quantity: 191300000000,
                quantity_sum: 191300000000,
                price_quantity_sum: 17_743_075_000_000_000_000u128,
            },
            OrderBookItem {
                price: 92761000,
                quantity: 977900000000,
                quantity_sum: 1169200000000,
                price_quantity_sum: 108_454_056_900_000_000_000u128,
            },
            OrderBookItem {
                price: 92805000,
                quantity: 383100000000,
                quantity_sum: 1552300000000,
                price_quantity_sum: 144_007_652_400_000_000_000u128,
            },
        ]
    } else {
        vec![
            OrderBookItem {
                price: 92805000,
                quantity: 383100000000,
                quantity_sum: 383100000000,
                price_quantity_sum: 92805000u128 * 383100000000u128,
            },
            OrderBookItem {
                price: 92761000,
                quantity: 977900000000,
                quantity_sum: 1361000000000,
                price_quantity_sum: 92805000u128 * 383100000000u128 + 977900000000u128 * 92761000u128,
            },
            OrderBookItem {
                price: 92750000,
                quantity: 191300000000,
                quantity_sum: 1552300000000,
                price_quantity_sum: 92805000u128 * 383100000000u128
                    + 977900000000u128 * 92761000u128
                    + 92750000u128 * 191300000000u128,
            },
        ]
    };

    let obd = OpenBookDex {
        trade_is_bid,
        order_book,
        fee_numerator: 20,
        fee_denominator: 100000,
        coin_lot_size: 100000000,
        pc_lot_size: 100,
        has_fee_discount_account: false,
        base_decimals_factor: 1_000_000_000,
        start_mint: [0u8; 32],
        end_mint: [0u8; 32],
    };
    let leg = Leg::OpenBookV3(obd);
    route.legs[0] = Some(leg);
}

#[test]
/// Test for a successful lower bound (sell)
fn route_test_simple_price_1() {
    let mut route = Route::default();
    mock_open_book_route(&mut route, false);

    // Sell 1 SOL for at least 92 USDC
    let bounded_price_numerator = 1_000_000_000;
    let bounded_price_denominator = 92_000_000;
    let res = route.simple_price_check(1_000_000_000, &bounded_price_numerator, &bounded_price_denominator);
    assert!(res == true);
}

#[test]
// Test for a failing lower bound (sell)
fn route_test_simple_price_2() {
    let mut route = Route::default();
    mock_open_book_route(&mut route, false);

    // Sell 1 SOL for at least 95
    let bounded_price_numerator = 1_000_000_000;
    let bounded_price_denominator = 95_000_000;
    let res = route.simple_price_check(1_000_000_000, &bounded_price_numerator, &bounded_price_denominator);
    assert!(res == false);
}

#[test]
// Test for a successful upper bound (buy)
fn route_test_simple_price_3() {
    let mut route = Route::default();
    mock_open_book_route(&mut route, true);

    // Buy 1 SOL for at most 93 USDC
    let bounded_price_numerator = 93_000_000;
    let bounded_price_denominator = 1_000_000_000;
    let res = route.simple_price_check(1_000_000_000, &bounded_price_numerator, &bounded_price_denominator);
    assert!(res == true);
}

#[test]
// Test for a failing upper bound (buy)
fn route_test_simple_price_4() {
    let mut route = Route::default();
    mock_open_book_route(&mut route, true);

    // Buy 1 SOL for at most 90 USDC
    let bounded_price_numerator = 90_000_000;
    let bounded_price_denominator = 1_000_000_000;
    let res = route.simple_price_check(1_000_000_000, &bounded_price_numerator, &bounded_price_denominator);
    assert!(res == false);
}

#[test]
fn sell_scenario_output_is_priced_at_first_rung_less_fee() {
    let mut route = Route::default();
    mock_open_book_route(&mut route, false);
    // 92_805_000 of proceeds at the first rung, less 18_561 of fee.
    assert_eq!(route.simulate_execution(1_000_000_000), Some(92_786_439));
}

#[test]
fn buy_scenario_output_after_fee_and_lot_rounding() {
    let mut route = Route::default();
    mock_open_book_route(&mut route, true);
    // 1_000_000_000 less a 0.02% fee is 999_800_000, already a multiple of 100.
    assert_eq!(route.simulate_execution(1_000_000_000), Some(999_800_000u64 * 1_000_000_000 / 92_750_000));
    assert_eq!(route.simulate_execution(1_000_000_000), Some(10_779_514_824));
}

#[test]
fn empty_route_simulates_to_zero() {
    let route = Route::default();
    assert_eq!(route.simulate_execution(5), Some(0));
    assert!(!route.simple_price_check(5, &1, &1));
}

#[test]
fn bound_zero_for_zero_is_out() {
    assert!(!is_in_bounds(0, 0, &1, &1));
    assert!(!is_in_bounds(0, 0, &0, &0));
    assert!(!is_in_bounds(5, 0, &3, &0));
    assert!(is_in_bounds(0, 1, &1, &1));
}

#[test]
fn bound_is_one_inequality_from_either_side() {
    // 10 in for 20 out: 10 * 2 <= 1 * 20 holds with equality, so the mirrored
    // trade meets the inverted bound too.
    assert!(is_in_bounds(10, 20, &1, &2));
    assert!(is_in_bounds(20, 10, &2, &1));
    // More output meets the bound; its mirror does not meet the inverse.
    assert!(is_in_bounds(10, 30, &1, &2));
    assert!(!is_in_bounds(30, 10, &2, &1));
    // Less output misses the bound; its mirror meets the inverse.
    assert!(!is_in_bounds(10, 19, &1, &2));
    assert!(is_in_bounds(19, 10, &2, &1));
}

#[test]
fn bound_does_not_overflow_on_large_values() {
    assert!(is_in_bounds(u64::MAX, u64::MAX, &u64::MAX, &u64::MAX));
    assert!(!is_in_bounds(u64::MAX, u64::MAX - 1, &1, &1));
}

#[test]
fn max_input_stays_within_available() {
    let mut route = Route::default();
    mock_open_book_route(&mut route, false);
    for available in [0u64, 1, 100_000_000, 1_000_000_000, 5_000_000_000_000, u64::MAX] {
        let r = route.calculate_max_input(available, &1_000_000_000, &92_000_000, 16);
        assert!(r <= available);
    }
}

#[test]
fn bounded_input_takes_everything_when_in_bounds() {
    let mut route = Route::default();
    mock_open_book_route(&mut route, false);
    assert_eq!(route.bounded_input_amount(1_000_000_000, &1_000_000_000, &92_000_000), Ok(1_000_000_000));
}

#[test]
fn bounded_input_fails_when_no_price_meets_bound() {
    let mut route = Route::default();
    mock_open_book_route(&mut route, false);
    // No sell gets 200 per unit out of a book priced near 92.8.
    assert_eq!(
        route.bounded_input_amount(1_000_000_000, &1_000_000_000, &200_000_000),
        Err(ErrorCode::MarketPriceIsOutOfBounds)
    );
}

#[test]
fn realized_trade_is_checked_against_bound() {
    // 100 spent must bring at least 200: 100 * 2 <= 1 * gained.
    assert_eq!(check_realized_trade(1000, 900, 50, 300, &1, &2), Ok(()));
    assert_eq!(check_realized_trade(1000, 900, 50, 250, &1, &2), Ok(()));
    assert_eq!(check_realized_trade(1000, 900, 50, 200, &1, &2), Err(ErrorCode::MarketPriceIsOutOfBounds));
    assert_eq!(check_realized_trade(1000, 1000, 50, 50, &2, &1), Err(ErrorCode::MarketPriceIsOutOfBounds));
    assert_eq!(check_realized_trade(900, 1000, 50, 300, &2, &1), Err(ErrorCode::ArithmeticFailure));
    assert_eq!(check_realized_trade(1000, 900, 300, 50, &2, &1), Err(ErrorCode::ArithmeticFailure));
}

#[test]
fn swap_amounts_follow_balances_after_first_leg() {
    let mut route = Route::default();
    mock_open_book_route(&mut route, false);
    mock_open_book_route(&mut route, true);
    assert_eq!(route.swap_amount(0, 7, 9), Some(7));
    assert_eq!(route.swap_amount(1, 7, 9), None);
    let mut second = Route::default();
    mock_open_book_route(&mut second, false);
    let mut other = Route::default();
    mock_open_book_route(&mut other, true);
    second.legs[1] = other.legs[0].take();
    assert_eq!(second.swap_amount(1, 7, 9), Some(9));
    assert_eq!(second.swap_amount(2, 7, 9), None);
}
