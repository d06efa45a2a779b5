//! The exchange legs of a route: an order-book market and a constant-product
//! pool, each built from its slot of accounts and able to simulate a trade.
use vstd::prelude::*;

use std::collections::VecDeque;

use crate::errors::ErrorCode;
use crate::fees::{FeeTier, STABLE_MARKET};
use crate::math::{constant_product_out, constant_product_simulation, mul_div, mul_div_u64};
use crate::order_book::{buy_amount_out, buy_coin_amount_out, sell_amount_out, sell_coin_amount_out, OrderBookItem};
use crate::slab::{field_u64, node_count, order_book_items, Slab, NODE_LEN, SLAB_HEADER_LEN};
use crate::token::{
    amount, base_total_accessor, bnt_accessor, mint, qnt_accessor, quote_total_accessor, same_key,
    AccountData, Pubkey,
};

verus! {

/// How many rungs of the book a simulation sees.
pub const MAX_ORDER_BOOK_DEPTH: usize = 3;

/// Accounts of an order-book leg: program, market, bids, asks, open orders,
/// request queue, event queue, coin vault, pc vault, vault signer, token
/// program, rent, referral, payer, source wallet, destination wallet.
pub const OPEN_BOOK_ACCOUNTS_LEN: usize = 16;

/// Accounts of a pool leg: program, amm, authority, open orders, target
/// orders, pool coin and pc accounts, market program, market, bids, asks,
/// event queue, coin and pc vaults, vault signer, source and destination
/// token accounts, source owner, token program.
pub const RAYDIUM_ACCOUNTS_LEN: usize = 19;

/// Bytes of padding before and after the order tree in a book account.
pub const BOOK_HEAD_PADDING: usize = 13;

pub const BOOK_TAIL_PADDING: usize = 7;

#[derive(Clone, Copy, Debug, PartialEq, Eq, Structural)]
pub enum CurveType {
    ConstantProduct,
    Stable,
}

/// The lot sizes of an order-book market, as loaded from its market account.
#[derive(Clone, Copy, Debug, PartialEq, Eq, Structural)]
pub struct MarketLots {
    pub coin_lot_size: u64,
    pub pc_lot_size: u64,
}

/// `10^n`.
pub open spec fn pow10(n: nat) -> int
    decreases n,
{
    if n == 0 {
        1
    } else {
        10 * pow10((n - 1) as nat)
    }
}

/// `10^n` when it fits in 64 bits, that is for `n <= 19`.
fn decimals_factor(n: u8) -> (r: Option<u64>)
    ensures
        r is Some <==> n <= 19,
        r matches Some(f) ==> f == pow10(n as nat),
{
    if n > 19 {
        return None;
    }
    let mut f: u64 = 1;
    let mut i: u8 = 0;
    while i < n
        invariant
            i <= n <= 19,
            f == pow10(i as nat),
        decreases n - i,
    {
        proof {
            lemma_pow10_monotone((i + 1) as nat, 19);
            reveal_with_fuel(pow10, 20);
            assert(pow10(19) == 10_000_000_000_000_000_000);
        }
        f = f * 10;
        i = i + 1;
    }
    Some(f)
}

proof fn lemma_pow10_monotone(a: nat, b: nat)
    requires
        a <= b,
    ensures
        pow10(a) <= pow10(b),
    decreases b,
{
    if a < b {
        lemma_pow10_monotone(a, (b - 1) as nat);
        lemma_pow10_positive((b - 1) as nat);
    }
}

proof fn lemma_pow10_positive(n: nat)
    ensures
        pow10(n) >= 1,
    decreases n,
{
    if n > 0 {
        lemma_pow10_positive((n - 1) as nat);
    }
}

/// The order tree inside a book account's data: the padding stripped and a
/// partial node at the end dropped.
pub open spec fn book_slab(data: Seq<u8>) -> Seq<u8> {
    let inner = data.subrange(BOOK_HEAD_PADDING as int, data.len() - BOOK_TAIL_PADDING);
    inner.subrange(0, SLAB_HEADER_LEN + node_count(inner) * NODE_LEN)
}

/// The side of an order.
#[derive(Clone, Copy, Debug, PartialEq, Eq, Structural)]
pub enum Side {
    Bid,
    Ask,
}

/// The immediate-or-cancel order a leg places: limits that cross the whole
/// book, sized by the quote amount (buying) or the base lots (selling).
#[derive(Clone, Copy, Debug, PartialEq, Eq, Structural)]
pub struct NewOrderParams {
    pub side: Side,
    pub limit_price: u64,
    pub max_coin_qty: u64,
    pub max_pc_qty: u64,
}

/// A leg trading on an order-book market, with the top of the book it will
/// trade against.
pub struct OpenBookDex {
    /// Whether the leg buys the base currency (spending quote currency).
    pub trade_is_bid: bool,
    pub order_book: Vec<OrderBookItem>,
    pub fee_numerator: u64,
    pub fee_denominator: u64,
    pub coin_lot_size: u64,
    pub pc_lot_size: u64,
    pub has_fee_discount_account: bool,
    pub base_decimals_factor: u64,
    /// The mint of the payer's source wallet.
    pub start_mint: Pubkey,
    /// The mint of the payer's destination wallet.
    pub end_mint: Pubkey,
}

impl OpenBookDex {
    /// What a trade of `tokens_in` returns: a buy against the asks or a sell
    /// against the bids.
    pub open spec fn spec_simulate_trade(&self, tokens_in: u64) -> Option<u64> {
        if self.trade_is_bid {
            buy_amount_out(
                tokens_in,
                self.order_book@,
                self.fee_numerator,
                self.fee_denominator,
                self.base_decimals_factor,
                self.pc_lot_size,
            )
        } else {
            sell_amount_out(
                tokens_in,
                self.order_book@,
                self.fee_numerator,
                self.fee_denominator,
                self.base_decimals_factor,
                self.coin_lot_size,
            )
        }
    }

    pub fn simulate_trade(&self, tokens_in: u64) -> (r: Option<u64>)
        ensures
            r == self.spec_simulate_trade(tokens_in),
    {
        if self.trade_is_bid {
            buy_coin_amount_out(
                tokens_in,
                &self.order_book,
                self.fee_numerator,
                self.fee_denominator,
                self.base_decimals_factor,
                self.pc_lot_size,
            )
        } else {
            sell_coin_amount_out(
                tokens_in,
                &self.order_book,
                self.fee_numerator,
                self.fee_denominator,
                self.base_decimals_factor,
                self.coin_lot_size,
            )
        }
    }

    /// The order that swapping `amount_in` places: a bid spends at most
    /// `amount_in` of quote currency at any price, an ask sells the whole lots
    /// in `amount_in` at any price. `None` where a size would be zero (or the
    /// coin lot size is zero), as the exchange takes only nonzero sizes.
    pub fn order_params(&self, amount_in: u64) -> (r: Option<NewOrderParams>)
        ensures
            r == (if self.trade_is_bid {
                if amount_in == 0 {
                    None
                } else {
                    Some(NewOrderParams { side: Side::Bid, limit_price: u64::MAX, max_coin_qty: u64::MAX, max_pc_qty: amount_in })
                }
            } else if self.coin_lot_size == 0 || amount_in / self.coin_lot_size == 0 {
                None
            } else {
                Some(NewOrderParams {
                    side: Side::Ask,
                    limit_price: 1,
                    max_coin_qty: amount_in / self.coin_lot_size,
                    max_pc_qty: u64::MAX,
                })
            }),
    {
        if self.trade_is_bid {
            if amount_in == 0 {
                return None;
            }
            Some(NewOrderParams { side: Side::Bid, limit_price: u64::MAX, max_coin_qty: u64::MAX, max_pc_qty: amount_in })
        } else {
            let max_coin_qty = match amount_in.checked_div(self.coin_lot_size) {
                Some(q) => q,
                None => return None,
            };
            if max_coin_qty == 0 {
                return None;
            }
            Some(NewOrderParams { side: Side::Ask, limit_price: 1, max_coin_qty, max_pc_qty: u64::MAX })
        }
    }

    /// The first check that a slot of accounts fails, given the next
    /// configuration byte and the market's lot sizes; `None` when it passes.
    pub open spec fn slot_error(accounts: Seq<AccountData>, decimals: Option<u8>, lots: MarketLots) -> Option<ErrorCode> {
        if accounts.len() < OPEN_BOOK_ACCOUNTS_LEN {
            Some(ErrorCode::IncorrectKeysForLeg)
        } else if decimals is None {
            Some(ErrorCode::MissingLegData)
        } else if decimals->0 > 19 {
            Some(ErrorCode::ArithmeticFailure)
        } else if accounts[7].data@.len() < 32 || accounts[14].data@.len() < 32 || accounts[15].data@.len() < 32 {
            Some(ErrorCode::AccountDataTooShort)
        } else {
            let trade_is_bid = accounts[14].data@.subrange(0, 32) != accounts[7].data@.subrange(0, 32);
            let book = if trade_is_bid { accounts[3].data@ } else { accounts[2].data@ };
            if book.len() < BOOK_HEAD_PADDING + SLAB_HEADER_LEN + BOOK_TAIL_PADDING {
                Some(ErrorCode::AccountDataTooShort)
            } else if order_book_items(
                book_slab(book),
                MAX_ORDER_BOOK_DEPTH,
                !trade_is_bid,
                lots.coin_lot_size,
                pow10(decimals->0 as nat) as u64,
                lots.pc_lot_size,
            ) is None {
                Some(ErrorCode::MalformedOrderBook)
            } else {
                None
            }
        }
    }

    /// Whether `self` is the leg that a passing slot of accounts describes:
    /// it buys when the source wallet's mint is not the base currency, and
    /// holds the top three rungs of the side it trades against.
    pub open spec fn built_from(&self, accounts: Seq<AccountData>, decimals: u8, lots: MarketLots) -> bool {
        let trade_is_bid = accounts[14].data@.subrange(0, 32) != accounts[7].data@.subrange(0, 32);
        let book = if trade_is_bid { accounts[3].data@ } else { accounts[2].data@ };
        let factor = pow10(decimals as nat) as u64;
        let tier = if accounts[1].key@ == STABLE_MARKET@ { FeeTier::Stable } else { FeeTier::Base };
        &&& self.trade_is_bid == trade_is_bid
        &&& Some(self.order_book@) == order_book_items(
            book_slab(book),
            MAX_ORDER_BOOK_DEPTH,
            !trade_is_bid,
            lots.coin_lot_size,
            factor,
            lots.pc_lot_size,
        )
        &&& (self.fee_numerator, self.fee_denominator) == tier.spec_taker_rate_fraction()
        &&& self.coin_lot_size == lots.coin_lot_size
        &&& self.pc_lot_size == lots.pc_lot_size
        &&& !self.has_fee_discount_account
        &&& self.base_decimals_factor == factor
        &&& self.start_mint@ == accounts[14].data@.subrange(0, 32)
        &&& self.end_mint@ == accounts[15].data@.subrange(0, 32)
    }

    /// Builds the leg from its slot of accounts, taking one configuration byte
    /// (the base currency's decimals) from the front of `additional_data`.
    pub fn from_account_slice(
        accounts: &[AccountData],
        additional_data: &mut VecDeque<u8>,
        lots: MarketLots,
    ) -> (r: Result<OpenBookDex, ErrorCode>)
        ensures
            ({
                let decimals = if old(additional_data)@.len() > 0 { Some(old(additional_data)@[0]) } else { None };
                &&& r is Err <==> Self::slot_error(accounts@, decimals, lots) is Some
                &&& r matches Err(e) ==> Self::slot_error(accounts@, decimals, lots) == Some(e)
                &&& r matches Ok(d) ==> d.built_from(accounts@, decimals->0, lots)
            }),
            accounts@.len() >= OPEN_BOOK_ACCOUNTS_LEN && old(additional_data)@.len() > 0 ==> final(additional_data)@
                == old(additional_data)@.subrange(1, old(additional_data)@.len() as int),
            accounts@.len() < OPEN_BOOK_ACCOUNTS_LEN || old(additional_data)@.len() == 0 ==> final(additional_data)@
                == old(additional_data)@,
    {
        if accounts.len() < OPEN_BOOK_ACCOUNTS_LEN {
            return Err(ErrorCode::IncorrectKeysForLeg);
        }
        let base_decimals = match additional_data.pop_front() {
            Some(b) => b,
            None => return Err(ErrorCode::MissingLegData),
        };
        let base_decimals_factor = match decimals_factor(base_decimals) {
            Some(f) => f,
            None => return Err(ErrorCode::ArithmeticFailure),
        };
        if accounts[7].data.len() < 32 || accounts[14].data.len() < 32 || accounts[15].data.len() < 32 {
            return Err(ErrorCode::AccountDataTooShort);
        }
        let base_mint = mint(accounts[7].data.as_slice());
        let source_mint = mint(accounts[14].data.as_slice());
        let end_mint = mint(accounts[15].data.as_slice());
        let trade_is_bid = !same_key(&source_mint, &base_mint);
        // Buying reads the asks, selling the bids.
        let book = if trade_is_bid { accounts[3].data.as_slice() } else { accounts[2].data.as_slice() };
        if book.len() < BOOK_HEAD_PADDING + SLAB_HEADER_LEN + BOOK_TAIL_PADDING {
            return Err(ErrorCode::AccountDataTooShort);
        }
        let tree = vstd::slice::slice_subrange(book, BOOK_HEAD_PADDING, book.len() - BOOK_TAIL_PADDING);
        let slab = Slab::new(tree);
        let order_book = match slab.get_order_book_items(
            MAX_ORDER_BOOK_DEPTH,
            !trade_is_bid,
            lots.coin_lot_size,
            base_decimals_factor,
            lots.pc_lot_size,
        ) {
            Some(items) => items,
            None => return Err(ErrorCode::MalformedOrderBook),
        };
        let fee_tier = FeeTier::from_srm_and_msrm_balances(&accounts[1].key);
        let (fee_numerator, fee_denominator) = fee_tier.taker_rate_fraction();
        Ok(OpenBookDex {
            trade_is_bid,
            order_book,
            fee_numerator,
            fee_denominator,
            coin_lot_size: lots.coin_lot_size,
            pc_lot_size: lots.pc_lot_size,
            has_fee_discount_account: false,
            base_decimals_factor,
            start_mint: source_mint,
            end_mint,
        })
    }
}


/// A leg swapping through a constant-product pool.
pub struct RaydiumSwap {
    pub fee_numerator: u64,
    pub fee_denominator: u64,
    /// Whether the leg spends the pool's base token.
    pub base_is_input: bool,
    pub base_effective_balance: u64,
    pub quote_effective_balance: u64,
    pub curve_type: CurveType,
    /// The mint of the user's source token account.
    pub start_mint: Pubkey,
    /// The mint of the user's destination token account.
    pub end_mint: Pubkey,
}

/// A pool's usable balance: its token account plus what its open-orders
/// account holds, less what is kept back for profit-taking.
pub open spec fn effective_balance(pool: u64, open_orders: u64, take_pnl: u64) -> Option<u64> {
    let total = pool as int + open_orders as int;
    if total > u64::MAX || total < take_pnl {
        None
    } else {
        Some((total - take_pnl) as u64)
    }
}

fn compute_effective_balance(pool: u64, open_orders: u64, take_pnl: u64) -> (r: Option<u64>)
    ensures
        r == effective_balance(pool, open_orders, take_pnl),
{
    match pool.checked_add(open_orders) {
        Some(total) => total.checked_sub(take_pnl),
        None => None,
    }
}

impl RaydiumSwap {
    /// What a swap of `tokens_in` returns: the taker fee comes off the input,
    /// then the constant-product formula applies. A stable curve is not
    /// simulated.
    pub open spec fn spec_simulate_trade(&self, tokens_in: u64) -> Option<u64> {
        match self.curve_type {
            CurveType::ConstantProduct => {
                let (in_pool, out_pool) = if self.base_is_input {
                    (self.base_effective_balance, self.quote_effective_balance)
                } else {
                    (self.quote_effective_balance, self.base_effective_balance)
                };
                match mul_div(tokens_in, self.fee_numerator, self.fee_denominator) {
                    None => None,
                    Some(fee) => if fee > tokens_in {
                        None
                    } else {
                        constant_product_out((tokens_in - fee) as u64, in_pool, out_pool)
                    },
                }
            },
            CurveType::Stable => None,
        }
    }

    pub fn simulate_trade(&self, tokens_in: u64) -> (r: Option<u64>)
        ensures
            r == self.spec_simulate_trade(tokens_in),
    {
        match self.curve_type {
            CurveType::ConstantProduct => {
                let (in_pool, out_pool) = if self.base_is_input {
                    (self.base_effective_balance, self.quote_effective_balance)
                } else {
                    (self.quote_effective_balance, self.base_effective_balance)
                };
                let fee = match mul_div_u64(tokens_in, self.fee_numerator, self.fee_denominator) {
                    Some(fee) => fee,
                    None => return None,
                };
                if fee > tokens_in {
                    return None;
                }
                constant_product_simulation(tokens_in - fee, in_pool, out_pool)
            },
            CurveType::Stable => None,
        }
    }

    /// The first check that a slot of accounts fails; `None` when it passes.
    pub open spec fn slot_error(accounts: Seq<AccountData>) -> Option<ErrorCode> {
        if accounts.len() < RAYDIUM_ACCOUNTS_LEN {
            Some(ErrorCode::IncorrectKeysForLeg)
        } else if accounts[15].data@.len() < 32 || accounts[16].data@.len() < 32
            || accounts[12].data@.len() < 32 || accounts[3].data@.len() < 109
            || accounts[1].data@.len() < 208 || accounts[5].data@.len() < 72
            || accounts[6].data@.len() < 72 {
            Some(ErrorCode::AccountDataTooShort)
        } else if effective_balance(
            field_u64(accounts[5].data@, 64),
            field_u64(accounts[3].data@, 85),
            field_u64(accounts[1].data@, 192),
        ) is None || effective_balance(
            field_u64(accounts[6].data@, 64),
            field_u64(accounts[3].data@, 101),
            field_u64(accounts[1].data@, 200),
        ) is None {
            Some(ErrorCode::ArithmeticFailure)
        } else {
            None
        }
    }

    /// Whether `self` is the leg that a passing slot of accounts describes.
    pub open spec fn built_from(&self, accounts: Seq<AccountData>) -> bool {
        &&& self.fee_numerator == 25
        &&& self.fee_denominator == 10_000
        &&& self.base_is_input == (accounts[12].data@.subrange(0, 32) == accounts[15].data@.subrange(0, 32))
        &&& Some(self.base_effective_balance) == effective_balance(
            field_u64(accounts[5].data@, 64),
            field_u64(accounts[3].data@, 85),
            field_u64(accounts[1].data@, 192),
        )
        &&& Some(self.quote_effective_balance) == effective_balance(
            field_u64(accounts[6].data@, 64),
            field_u64(accounts[3].data@, 101),
            field_u64(accounts[1].data@, 200),
        )
        &&& self.curve_type == CurveType::ConstantProduct
        &&& self.start_mint@ == accounts[15].data@.subrange(0, 32)
        &&& self.end_mint@ == accounts[16].data@.subrange(0, 32)
    }

    /// Builds the leg from its slot of accounts.
    pub fn from_account_slice(accounts: &[AccountData]) -> (r: Result<RaydiumSwap, ErrorCode>)
        ensures
            r is Err <==> Self::slot_error(accounts@) is Some,
            r matches Err(e) ==> Self::slot_error(accounts@) == Some(e),
            r matches Ok(d) ==> d.built_from(accounts@),
    {
        if accounts.len() < RAYDIUM_ACCOUNTS_LEN {
            return Err(ErrorCode::IncorrectKeysForLeg);
        }
        if accounts[15].data.len() < 32 || accounts[16].data.len() < 32 || accounts[12].data.len() < 32
            || accounts[3].data.len() < 109 || accounts[1].data.len() < 208 || accounts[5].data.len() < 72
            || accounts[6].data.len() < 72 {
            return Err(ErrorCode::AccountDataTooShort);
        }
        let source_mint = mint(accounts[15].data.as_slice());
        let end_mint = mint(accounts[16].data.as_slice());
        let base_mint = mint(accounts[12].data.as_slice());
        let base_is_input = same_key(&base_mint, &source_mint);
        let oo_data = accounts[3].data.as_slice();
        let amm_data = accounts[1].data.as_slice();
        let base_pool_bal = amount(accounts[5].data.as_slice());
        let quote_pool_bal = amount(accounts[6].data.as_slice());
        let quote_oo_bal = quote_total_accessor(oo_data);
        let base_oo_bal = base_total_accessor(oo_data);
        let quote_needed_take_pnl = qnt_accessor(amm_data);
        let base_needed_take_pnl = bnt_accessor(amm_data);
        let base_effective_balance = compute_effective_balance(base_pool_bal, base_oo_bal, base_needed_take_pnl);
        let quote_effective_balance = compute_effective_balance(quote_pool_bal, quote_oo_bal, quote_needed_take_pnl);
        match (base_effective_balance, quote_effective_balance) {
            (Some(base_effective_balance), Some(quote_effective_balance)) => Ok(RaydiumSwap {
                fee_numerator: 25,
                fee_denominator: 10_000,
                base_is_input,
                base_effective_balance,
                quote_effective_balance,
                curve_type: CurveType::ConstantProduct,
                start_mint: source_mint,
                end_mint,
            }),
            _ => Err(ErrorCode::ArithmeticFailure),
        }
    }
}

/// The exchanges a leg can trade on.
#[derive(Clone, Copy, Debug, PartialEq, Eq, Structural)]
pub enum DexList {
    OpenBookV3,
    Raydium,
}

/// The order-book exchange program (srmqPvymJeFKQ4zGQed1GFppgkRHL9kaELCbyksJtPX).
pub const OPEN_BOOK_PROGRAM_ID: Pubkey = [
    13, 7, 81, 168, 40, 45, 166, 19, 5, 254, 41, 156, 55, 185, 152, 229,
    132, 113, 219, 17, 53, 3, 115, 16, 248, 190, 16, 69, 166, 10, 246, 238,
];

/// The constant-product pool program (675kPX9MHTjS2zt1qfr1NYHuzeLXfQM9H24wFSUt1Mp8).
pub const RAYDIUM_PROGRAM_ID: Pubkey = [
    75, 217, 73, 196, 54, 2, 195, 63, 32, 119, 144, 237, 22, 163, 82, 76,
    161, 185, 151, 92, 241, 33, 162, 169, 12, 255, 236, 125, 248, 182, 138, 205,
];

impl DexList {
    pub open spec fn spec_from_id(id: Pubkey) -> Result<DexList, ErrorCode> {
        if id@ == OPEN_BOOK_PROGRAM_ID@ {
            Ok(DexList::OpenBookV3)
        } else if id@ == RAYDIUM_PROGRAM_ID@ {
            Ok(DexList::Raydium)
        } else {
            Err(ErrorCode::UknownDexId)
        }
    }

    /// The exchange whose program has address `id`.
    pub fn from_id(id: &Pubkey) -> (r: Result<DexList, ErrorCode>)
        ensures
            r == Self::spec_from_id(*id),
    {
        let open_book = OPEN_BOOK_PROGRAM_ID;
        let raydium = RAYDIUM_PROGRAM_ID;
        if same_key(id, &open_book) {
            Ok(DexList::OpenBookV3)
        } else if same_key(id, &raydium) {
            Ok(DexList::Raydium)
        } else {
            Err(ErrorCode::UknownDexId)
        }
    }

    /// How many accounts a leg on this exchange takes.
    pub open spec fn accounts_len(&self) -> int {
        match self {
            DexList::OpenBookV3 => OPEN_BOOK_ACCOUNTS_LEN as int,
            DexList::Raydium => RAYDIUM_ACCOUNTS_LEN as int,
        }
    }

    /// How many accounts a leg on this exchange takes.
    pub fn accounts_len_exec(&self) -> (r: usize)
        ensures
            r == self.accounts_len(),
    {
        match self {
            DexList::OpenBookV3 => OPEN_BOOK_ACCOUNTS_LEN,
            DexList::Raydium => RAYDIUM_ACCOUNTS_LEN,
        }
    }

    /// The index just past the leg's accounts when they start at `start`.
    pub fn get_end_account_idx(&self, start: usize) -> (r: usize)
        requires
            start + self.accounts_len() <= usize::MAX,
        ensures
            r == start + self.accounts_len(),
    {
        let accounts_len = match self {
            DexList::OpenBookV3 => OPEN_BOOK_ACCOUNTS_LEN,
            DexList::Raydium => RAYDIUM_ACCOUNTS_LEN,
        };
        start + accounts_len
    }
}

/// One hop of a route.
pub enum Leg {
    OpenBookV3(OpenBookDex),
    Raydium(RaydiumSwap),
}

impl Leg {
    pub open spec fn spec_simulate_trade(&self, tokens_in: u64) -> Option<u64> {
        match self {
            Leg::OpenBookV3(d) => d.spec_simulate_trade(tokens_in),
            Leg::Raydium(d) => d.spec_simulate_trade(tokens_in),
        }
    }

    /// Given the amount of tokens in, the amount of tokens returned; `None`
    /// where the arithmetic of the simulation fails.
    pub fn simulate_trade(&self, tokens_in: u64) -> (r: Option<u64>)
        ensures
            r == self.spec_simulate_trade(tokens_in),
    {
        match self {
            Leg::OpenBookV3(d) => d.simulate_trade(tokens_in),
            Leg::Raydium(d) => d.simulate_trade(tokens_in),
        }
    }

    pub open spec fn spec_start_mint(&self) -> Pubkey {
        match self {
            Leg::OpenBookV3(d) => d.start_mint,
            Leg::Raydium(d) => d.start_mint,
        }
    }

    pub open spec fn spec_end_mint(&self) -> Pubkey {
        match self {
            Leg::OpenBookV3(d) => d.end_mint,
            Leg::Raydium(d) => d.end_mint,
        }
    }

    /// The mint of the token the leg spends.
    pub fn start_mint(&self) -> (r: Pubkey)
        ensures
            r == self.spec_start_mint(),
    {
        match self {
            Leg::OpenBookV3(d) => d.start_mint,
            Leg::Raydium(d) => d.start_mint,
        }
    }

    /// The mint of the token the leg receives.
    pub fn end_mint(&self) -> (r: Pubkey)
        ensures
            r == self.spec_end_mint(),
    {
        match self {
            Leg::OpenBookV3(d) => d.end_mint,
            Leg::Raydium(d) => d.end_mint,
        }
    }

    pub open spec fn slot_error(dex: DexList, accounts: Seq<AccountData>, decimals: Option<u8>, lots: Option<MarketLots>) -> Option<ErrorCode> {
        match dex {
            DexList::OpenBookV3 => match lots {
                None => Some(ErrorCode::FailedToLoadOpenBookDexMarket),
                Some(lots) => OpenBookDex::slot_error(accounts, decimals, lots),
            },
            DexList::Raydium => RaydiumSwap::slot_error(accounts),
        }
    }

    /// Whether `self` is the leg of kind `dex` that a passing slot describes.
    pub open spec fn built_from(&self, dex: DexList, accounts: Seq<AccountData>, decimals: Option<u8>, lots: Option<MarketLots>) -> bool {
        match (dex, self) {
            (DexList::OpenBookV3, Leg::OpenBookV3(d)) => d.built_from(accounts, decimals->0, lots->0),
            (DexList::Raydium, Leg::Raydium(d)) => d.built_from(accounts),
            _ => false,
        }
    }

    /// Whether building a leg of kind `dex` takes a configuration byte.
    pub open spec fn takes_byte(dex: DexList, accounts: Seq<AccountData>, decimals: Option<u8>, lots: Option<MarketLots>) -> bool {
        dex == DexList::OpenBookV3 && lots is Some && accounts.len() >= OPEN_BOOK_ACCOUNTS_LEN && decimals is Some
    }

    /// Builds the leg of kind `dex` from its slot of accounts; an order-book
    /// leg takes one configuration byte and needs its market's lot sizes.
    pub fn from_account_slice(
        dex: DexList,
        accounts: &[AccountData],
        additional_data: &mut VecDeque<u8>,
        lots: Option<MarketLots>,
    ) -> (r: Result<Leg, ErrorCode>)
        ensures
            ({
                let decimals = if old(additional_data)@.len() > 0 { Some(old(additional_data)@[0]) } else { None };
                &&& r is Err <==> Self::slot_error(dex, accounts@, decimals, lots) is Some
                &&& r matches Err(e) ==> Self::slot_error(dex, accounts@, decimals, lots) == Some(e)
                &&& r matches Ok(leg) ==> leg.built_from(dex, accounts@, decimals, lots)
                &&& final(additional_data)@ == if Self::takes_byte(dex, accounts@, decimals, lots) {
                    old(additional_data)@.subrange(1, old(additional_data)@.len() as int)
                } else {
                    old(additional_data)@
                }
            }),
    {
        match dex {
            DexList::OpenBookV3 => match lots {
                Some(lots) => match OpenBookDex::from_account_slice(accounts, additional_data, lots) {
                    Ok(d) => Ok(Leg::OpenBookV3(d)),
                    Err(e) => Err(e),
                },
                None => Err(ErrorCode::FailedToLoadOpenBookDexMarket),
            },
            DexList::Raydium => match RaydiumSwap::from_account_slice(accounts) {
                Ok(d) => Ok(Leg::Raydium(d)),
                Err(e) => Err(e),
            },
        }
    }
}

} // verus!
