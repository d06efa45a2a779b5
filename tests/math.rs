use poseidon::math::{constant_product_simulation, convert_price_to_decimals, find_maximum_input, mul_div_u64};

#[test]
fn mul_div_is_exact_through_128_bits() {
    assert_eq!(mul_div_u64(6, 7, 4), Some(10));
    assert_eq!(mul_div_u64(u64::MAX, u64::MAX, u64::MAX), Some(u64::MAX));
    assert_eq!(mul_div_u64(u64::MAX, 2, 3), Some(12_297_829_382_473_034_410));
    assert_eq!(mul_div_u64(0, 5, 1), Some(0));
}

#[test]
fn mul_div_fails_on_zero_divisor_and_overflow() {
    assert_eq!(mul_div_u64(1, 1, 0), None);
    assert_eq!(mul_div_u64(u64::MAX, 2, 1), None);
}

#[test]
fn price_conversion_scales_by_lots_and_decimals() {
    // 10 * (5 * 1000 / 100)
    assert_eq!(convert_price_to_decimals(5, 100, 1000, 10), 500);
    // lot price 92805 with coin lot 1e8, decimals 1e9, pc lot 100
    assert_eq!(convert_price_to_decimals(92_805, 100_000_000, 1_000_000_000, 100), 92_805_000);
}

#[test]
fn golden_section_finds_peak_of_unimodal_function() {
    let tent = |x: u64| if x <= 600 { x } else { 1200 - x.min(1200) };
    let r = find_maximum_input(tent, 0, 1000, 16);
    assert!(r <= 1000);
    assert!(r >= 590 && r <= 610, "{}", r);
}

#[test]
fn golden_section_stays_in_bracket() {
    let flat = |_x: u64| 7u64;
    assert_eq!(find_maximum_input(flat, 5, 5, 16), 5);
    let r = find_maximum_input(flat, 0, u64::MAX, 16);
    assert!(r <= u64::MAX);
    let increasing = |x: u64| x;
    let r = find_maximum_input(increasing, 10, 20, 0);
    assert!(r >= 10 && r <= 20);
}

#[test]
fn golden_section_first_step_values() {
    // One step on [0, 1000] with an increasing function: probes 381 and 618,
    // the upper part is kept: a = 381, c = 618, h = 618, d = 381 + 381 = 762.
    // The second step keeps the upper part again: a = 618, c = 762, b = 1000.
    let increasing = |x: u64| x;
    assert_eq!(find_maximum_input(increasing, 0, 1000, 1), (762 + 1000) / 2);
}

#[test]
fn constant_product_formula() {
    assert_eq!(constant_product_simulation(100, 1050, 2100), Some(182));
    assert_eq!(constant_product_simulation(0, 1050, 2100), Some(0));
    assert_eq!(constant_product_simulation(0, 0, 2100), None);
    assert_eq!(constant_product_simulation(u64::MAX, 0, u64::MAX), Some(u64::MAX));
}
