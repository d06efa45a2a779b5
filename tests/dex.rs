use std::collections::VecDeque;

use poseidon::dex::{
    CurveType, DexList, Leg, MarketLots, OpenBookDex, RaydiumSwap, OPEN_BOOK_PROGRAM_ID, RAYDIUM_PROGRAM_ID,
};
use poseidon::errors::ErrorCode;
use poseidon::fees::{FeeTier, STABLE_MARKET};
use poseidon::order_book::OrderBookItem;
use poseidon::route::Route;
use poseidon::token::{
    amount, base_total_accessor, bnt_accessor, mint, qnt_accessor, quote_total_accessor, same_key,
    AccountData,
};

const OPEN_BOOK: [u8; 32] = OPEN_BOOK_PROGRAM_ID;
const RAYDIUM: [u8; 32] = RAYDIUM_PROGRAM_ID;
const BASE: [u8; 32] = [1u8; 32];
const QUOTE: [u8; 32] = [2u8; 32];
const OTHER: [u8; 32] = [3u8; 32];

fn account(key: [u8; 32], data: Vec<u8>) -> AccountData {
    AccountData { key, data }
}

fn token_account(mint: [u8; 32], balance: u64) -> Vec<u8> {
    let mut d = mint.to_vec();
    d.resize(64, 0);
    d.extend_from_slice(&balance.to_le_bytes());
    d.resize(165, 0);
    d
}

fn put_u64(d: &mut Vec<u8>, offset: usize, v: u64) {
    d[offset..offset + 8].copy_from_slice(&v.to_le_bytes());
}

fn slab_node_inner(c0: u32, c1: u32) -> Vec<u8> {
    let mut n = 1u32.to_le_bytes().to_vec();
    n.resize(24, 0);
    n.extend_from_slice(&c0.to_le_bytes());
    n.extend_from_slice(&c1.to_le_bytes());
    n.resize(72, 0);
    n
}

fn slab_node_leaf(price: u64, quantity: u64) -> Vec<u8> {
    let mut n = 2u32.to_le_bytes().to_vec();
    n.resize(8, 0);
    n.extend_from_slice(&(((price as u128) << 64) | 1).to_le_bytes());
    n.resize(56, 0);
    n.extend_from_slice(&quantity.to_le_bytes());
    n.resize(72, 0);
    n
}

/// A book account: padding, a header, an inner root over leaves at prices 5
/// and 6, and tail padding.
fn book_account() -> Vec<u8> {
    let mut d = vec![0u8; 13];
    d.extend_from_slice(&0u64.to_le_bytes());
    d.extend_from_slice(&0u64.to_le_bytes());
    d.extend_from_slice(&0u32.to_le_bytes());
    d.extend_from_slice(&0u32.to_le_bytes());
    d.extend_from_slice(&2u64.to_le_bytes());
    d.extend(slab_node_inner(1, 2));
    d.extend(slab_node_leaf(5, 2));
    d.extend(slab_node_leaf(6, 3));
    d.extend_from_slice(&[0u8; 7]);
    d
}

fn open_book_accounts(source: [u8; 32], market: [u8; 32]) -> Vec<AccountData> {
    let mut v = Vec::new();
    for i in 0..16 {
        let (key, data) = match i {
            0 => (OPEN_BOOK, vec![]),
            1 => (market, vec![]),
            2 | 3 => (OTHER, book_account()),
            7 => (OTHER, token_account(BASE, 0)),
            14 => (OTHER, token_account(source, 0)),
            15 => (OTHER, token_account(if source == BASE { QUOTE } else { BASE }, 0)),
            _ => (OTHER, vec![]),
        };
        v.push(account(key, data));
    }
    v
}

fn raydium_accounts(source: [u8; 32]) -> Vec<AccountData> {
    let mut v = Vec::new();
    for i in 0..19 {
        let (key, data) = match i {
            0 => (RAYDIUM, vec![]),
            1 => {
                let mut amm = vec![0u8; 752];
                put_u64(&mut amm, 192, 50);
                put_u64(&mut amm, 200, 100);
                (OTHER, amm)
            }
            3 => {
                let mut oo = vec![0u8; 3228];
                put_u64(&mut oo, 85, 100);
                put_u64(&mut oo, 101, 200);
                (OTHER, oo)
            }
            5 => (OTHER, token_account(BASE, 1000)),
            6 => (OTHER, token_account(QUOTE, 2000)),
            12 => (OTHER, token_account(BASE, 0)),
            15 => (OTHER, token_account(source, 0)),
            16 => (OTHER, token_account(if source == BASE { QUOTE } else { BASE }, 0)),
            _ => (OTHER, vec![]),
        };
        v.push(account(key, data));
    }
    v
}

#[test]
fn token_account_fields() {
    let d = token_account(QUOTE, 123_456);
    assert_eq!(amount(&d), 123_456);
    assert_eq!(mint(&d), QUOTE);
    let mut oo = vec![0u8; 210];
    put_u64(&mut oo, 85, 11);
    put_u64(&mut oo, 101, 22);
    put_u64(&mut oo, 192, 33);
    put_u64(&mut oo, 200, 44);
    assert_eq!(base_total_accessor(&oo), 11);
    assert_eq!(quote_total_accessor(&oo), 22);
    assert_eq!(bnt_accessor(&oo), 33);
    assert_eq!(qnt_accessor(&oo), 44);
    assert!(same_key(&BASE, &[1u8; 32]));
    assert!(!same_key(&BASE, &QUOTE));
}

#[test]
fn fee_tiers() {
    assert_eq!(FeeTier::from_srm_and_msrm_balances(&STABLE_MARKET), FeeTier::Stable);
    assert_eq!(FeeTier::from_srm_and_msrm_balances(&OTHER), FeeTier::Base);
    assert_eq!(FeeTier::Stable.taker_rate_fraction(), (5, 100_000));
    assert_eq!(FeeTier::Base.taker_rate_fraction(), (20, 100_000));
}

#[test]
fn dex_list_from_program_id() {
    assert_eq!(DexList::from_id(&OPEN_BOOK), Ok(DexList::OpenBookV3));
    assert_eq!(DexList::from_id(&RAYDIUM), Ok(DexList::Raydium));
    assert_eq!(DexList::from_id(&OTHER), Err(ErrorCode::UknownDexId));
    assert_eq!(DexList::OpenBookV3.get_end_account_idx(4), 20);
    assert_eq!(DexList::Raydium.get_end_account_idx(16), 35);
}

#[test]
fn open_book_leg_selling_reads_bids() {
    let accounts = open_book_accounts(BASE, STABLE_MARKET);
    let mut data = VecDeque::from(vec![3u8, 42]);
    let lots = MarketLots { coin_lot_size: 100, pc_lot_size: 10 };
    let leg = OpenBookDex::from_account_slice(&accounts, &mut data, lots).unwrap();
    assert_eq!(data, VecDeque::from(vec![42u8]));
    assert!(!leg.trade_is_bid);
    assert_eq!((leg.fee_numerator, leg.fee_denominator), (5, 100_000));
    assert_eq!(leg.base_decimals_factor, 1000);
    assert_eq!(leg.start_mint, BASE);
    assert_eq!(leg.end_mint, QUOTE);
    assert_eq!(
        leg.order_book,
        vec![
            OrderBookItem { price: 600, quantity: 300, quantity_sum: 300, price_quantity_sum: 180_000 },
            OrderBookItem { price: 500, quantity: 200, quantity_sum: 500, price_quantity_sum: 280_000 },
        ]
    );
}

#[test]
fn open_book_leg_buying_reads_asks() {
    let accounts = open_book_accounts(QUOTE, OTHER);
    let mut data = VecDeque::from(vec![3u8]);
    let lots = MarketLots { coin_lot_size: 100, pc_lot_size: 10 };
    let leg = OpenBookDex::from_account_slice(&accounts, &mut data, lots).unwrap();
    assert!(leg.trade_is_bid);
    assert_eq!((leg.fee_numerator, leg.fee_denominator), (20, 100_000));
    assert_eq!(leg.order_book[0].price, 500);
    assert_eq!(leg.order_book[1].price, 600);
}

#[test]
fn open_book_leg_errors() {
    let lots = MarketLots { coin_lot_size: 100, pc_lot_size: 10 };
    let accounts = open_book_accounts(BASE, OTHER);
    assert!(matches!(
        OpenBookDex::from_account_slice(&accounts[..15], &mut VecDeque::from(vec![3u8]), lots),
        Err(ErrorCode::IncorrectKeysForLeg)
    ));
    assert!(matches!(
        OpenBookDex::from_account_slice(&accounts, &mut VecDeque::new(), lots),
        Err(ErrorCode::MissingLegData)
    ));
    assert!(matches!(
        OpenBookDex::from_account_slice(&accounts, &mut VecDeque::from(vec![20u8]), lots),
        Err(ErrorCode::ArithmeticFailure)
    ));
    let mut short = open_book_accounts(BASE, OTHER);
    short[2].data.truncate(40);
    assert!(matches!(
        OpenBookDex::from_account_slice(&short, &mut VecDeque::from(vec![3u8]), lots),
        Err(ErrorCode::AccountDataTooShort)
    ));
    let mut bad = open_book_accounts(BASE, OTHER);
    bad[2].data[13 + 20] = 7;
    assert!(matches!(
        OpenBookDex::from_account_slice(&bad, &mut VecDeque::from(vec![3u8]), lots),
        Err(ErrorCode::MalformedOrderBook)
    ));
}

#[test]
fn raydium_leg_effective_balances_and_swap() {
    let leg = RaydiumSwap::from_account_slice(&raydium_accounts(BASE)).unwrap();
    assert!(leg.base_is_input);
    assert_eq!(leg.base_effective_balance, 1050);
    assert_eq!(leg.quote_effective_balance, 2100);
    assert_eq!((leg.fee_numerator, leg.fee_denominator), (25, 10_000));
    assert_eq!(leg.curve_type, CurveType::ConstantProduct);
    // 100 in, no whole fee: 2100 * 100 / 1150
    assert_eq!(leg.simulate_trade(100), Some(182));
    // 10_000 in pays 25 in fees: 2100 * 9975 / 11025
    assert_eq!(leg.simulate_trade(10_000), Some(1900));
    let back = RaydiumSwap::from_account_slice(&raydium_accounts(QUOTE)).unwrap();
    assert!(!back.base_is_input);
    // 1050 * 100 / 2200
    assert_eq!(back.simulate_trade(100), Some(47));
}

#[test]
fn raydium_leg_errors() {
    let accounts = raydium_accounts(BASE);
    assert!(matches!(RaydiumSwap::from_account_slice(&accounts[..18]), Err(ErrorCode::IncorrectKeysForLeg)));
    let mut short = raydium_accounts(BASE);
    short[3].data.truncate(100);
    assert!(matches!(RaydiumSwap::from_account_slice(&short), Err(ErrorCode::AccountDataTooShort)));
    let mut drained = raydium_accounts(BASE);
    put_u64(&mut drained[1].data, 192, 5000);
    assert!(matches!(RaydiumSwap::from_account_slice(&drained), Err(ErrorCode::ArithmeticFailure)));
}

#[test]
fn stable_curve_is_not_simulated() {
    let mut leg = RaydiumSwap::from_account_slice(&raydium_accounts(BASE)).unwrap();
    leg.curve_type = CurveType::Stable;
    assert_eq!(leg.simulate_trade(100), None);
}

fn two_leg_accounts() -> Vec<AccountData> {
    let mut accounts = open_book_accounts(BASE, OTHER);
    accounts.extend(raydium_accounts(QUOTE));
    accounts
}

#[test]
fn route_from_accounts_chains_two_legs() {
    let lots = vec![MarketLots { coin_lot_size: 100, pc_lot_size: 10 }];
    let route = Route::create(&two_leg_accounts(), VecDeque::from(vec![3u8]), &lots).unwrap();
    assert!(matches!(route.legs[0], Some(Leg::OpenBookV3(_))));
    assert!(matches!(route.legs[1], Some(Leg::Raydium(_))));
    assert!(route.legs[2].is_none());
    assert_eq!(route.start_mint(), BASE);
    assert_eq!(route.end_mint(), BASE);
    assert_eq!(route.validate_mints(&BASE, &BASE), Ok(()));
    assert_eq!(route.validate_mints(&QUOTE, &BASE), Err(ErrorCode::InputMintMismatch));
    assert_eq!(route.validate_mints(&BASE, &QUOTE), Err(ErrorCode::OutputMintMismatch));
    // The route output is the second leg applied to the first leg's output.
    for x in [0u64, 100, 150, 300, 1_000] {
        let first = route.legs[0].as_ref().unwrap().simulate_trade(x);
        let expected = first.and_then(|y| route.legs[1].as_ref().unwrap().simulate_trade(y));
        assert_eq!(route.simulate_execution(x), expected);
    }
    // Selling 300 (3 lots) lands on the first bid rung: 300 * 600 / 1000 = 180
    // quote, which the pool swaps for 1050 * 180 / 2280 = 82 base.
    assert_eq!(route.legs[0].as_ref().unwrap().simulate_trade(300), Some(180));
    assert_eq!(route.simulate_execution(300), Some(82));
}

#[test]
fn route_creation_errors() {
    let lots = vec![MarketLots { coin_lot_size: 100, pc_lot_size: 10 }];
    let mut unknown = two_leg_accounts();
    unknown[16].key = OTHER;
    assert!(matches!(
        Route::create(&unknown, VecDeque::from(vec![3u8]), &lots),
        Err(ErrorCode::UknownDexId)
    ));
    assert!(matches!(
        Route::create(&two_leg_accounts(), VecDeque::new(), &lots),
        Err(ErrorCode::MissingLegData)
    ));
    assert!(matches!(
        Route::create(&two_leg_accounts(), VecDeque::from(vec![3u8]), &Vec::new()),
        Err(ErrorCode::FailedToLoadOpenBookDexMarket)
    ));
    let mut truncated = two_leg_accounts();
    truncated.truncate(30);
    assert!(matches!(
        Route::create(&truncated, VecDeque::from(vec![3u8]), &lots),
        Err(ErrorCode::IncorrectKeysForLeg)
    ));
    let mut four = Vec::new();
    for _ in 0..4 {
        four.extend(raydium_accounts(BASE));
    }
    assert!(matches!(
        Route::create(&four, VecDeque::new(), &lots),
        Err(ErrorCode::TooManyLegs)
    ));
    assert!(matches!(
        Route::create(&two_leg_accounts(), VecDeque::from(vec![3u8, 9]), &lots),
        Err(ErrorCode::UnusedLegData)
    ));
    assert!(matches!(
        Route::create(&Vec::new(), VecDeque::from(vec![1u8]), &lots),
        Err(ErrorCode::UnusedLegData)
    ));
    let empty = Route::create(&Vec::new(), VecDeque::new(), &lots).unwrap();
    assert!(empty.legs.iter().all(|l| l.is_none()));
    assert_eq!(empty.validate_mints(&BASE, &BASE), Err(ErrorCode::EmptyRoute));
}

#[test]
fn max_input_search_can_miss_a_narrow_in_bounds_region() {
    let lots = Vec::new();
    let route = Route::create(&raydium_accounts(BASE), VecDeque::new(), &lots).unwrap();
    // Selling 50 base for 95 quote meets a bound of 16 / 30 (50 * 30 <= 16 * 95)...
    assert_eq!(route.simulate_execution(50), Some(95));
    assert!(route.simple_price_check(50, &16, &30));
    // ...but every probe of the search lands out of bounds, where the
    // objective is flat at zero, and the search drifts to the top.
    let max_input = route.calculate_max_input(1000, &16, &30, 16);
    assert_eq!(max_input, 996);
    assert!(!route.simple_price_check(max_input, &16, &30));
    assert_eq!(route.bounded_input_amount(1000, &16, &30), Err(ErrorCode::MarketPriceIsOutOfBounds));
}

fn base58_decode(text: &str) -> [u8; 32] {
    const ALPHABET: &str = "123456789ABCDEFGHJKLMNPQRSTUVWXYZabcdefghijkmnopqrstuvwxyz";
    let mut out = [0u8; 32];
    for c in text.chars() {
        let mut carry = ALPHABET.find(c).unwrap() as u32;
        for byte in out.iter_mut().rev() {
            carry += (*byte as u32) * 58;
            *byte = (carry & 0xff) as u8;
            carry >>= 8;
        }
        assert_eq!(carry, 0);
    }
    out
}

#[test]
fn address_constants_match_their_base58_text() {
    assert_eq!(base58_decode("B2na8Awyd7cpC59iEU43FagJAPLigr3AP3s38KM982bu"), STABLE_MARKET);
    assert_eq!(base58_decode("srmqPvymJeFKQ4zGQed1GFppgkRHL9kaELCbyksJtPX"), OPEN_BOOK_PROGRAM_ID);
    assert_eq!(base58_decode("675kPX9MHTjS2zt1qfr1NYHuzeLXfQM9H24wFSUt1Mp8"), RAYDIUM_PROGRAM_ID);
}
