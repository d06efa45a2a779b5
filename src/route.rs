//! A route of up to three legs: chained simulation, the price bound, the
//! bounded maximum-input search and the checks around a bounded trade.
use vstd::prelude::*;

use std::collections::VecDeque;

use crate::dex::{DexList, Leg, MarketLots};
use crate::errors::ErrorCode;
use crate::math::{determines, find_maximum_input, golden_section_max, lemma_golden_section_in_bracket};
use crate::token::{same_key, AccountData, Pubkey};

verus! {

pub const MAX_LEGS: usize = 3;

/// How many steps the maximum-input search takes in a bounded trade.
pub const SEARCH_ITERATIONS: u8 = 16;

/// Whether the trade of `input` for `output` meets the bound
/// `numerator / denominator`: `input * denominator <= numerator * output`,
/// and not both sides zero.
pub open spec fn in_bounds(input: u64, output: u64, numerator: u64, denominator: u64) -> bool {
    let bounded = numerator as int * output as int;
    let executed = input as int * denominator as int;
    !(bounded == 0 && executed == 0) && executed <= bounded
}

/// Checks whether the execution price is within the bound. A trade where
/// both sides of the comparison are zero is out of bounds.
pub fn is_in_bounds(
    input: u64,
    output: u64,
    bounded_price_numerator: &u64,
    bounded_price_denominator: &u64,
) -> (r: bool)
    ensures
        r == in_bounds(input, output, *bounded_price_numerator, *bounded_price_denominator),
{
    assert(*bounded_price_numerator as int * output as int <= u64::MAX as int * u64::MAX as int) by (nonlinear_arith);
    assert(input as int * *bounded_price_denominator as int <= u64::MAX as int * u64::MAX as int) by (nonlinear_arith);
    // Normalize input to output so that prices below one are handled too.
    let bounded_numerator: u128 = (*bounded_price_numerator as u128) * (output as u128);
    let executed_numerator: u128 = (input as u128) * (*bounded_price_denominator as u128);
    if bounded_numerator == 0 && executed_numerator == 0 {
        false
    } else if executed_numerator > bounded_numerator {
        false
    } else {
        true
    }
}

/// The amount after the first `n` slots, feeding each leg's output to the
/// next leg and passing over empty slots.
pub open spec fn chain_prefix(legs: Seq<Option<Leg>>, n: int, input: u64) -> Option<u64>
    decreases n,
{
    if n <= 0 {
        Some(input)
    } else {
        match chain_prefix(legs, n - 1, input) {
            None => None,
            Some(amount) => match legs[n - 1] {
                None => Some(amount),
                Some(leg) => leg.spec_simulate_trade(amount),
            },
        }
    }
}

/// Whether one of the first `n` slots holds a leg.
pub open spec fn any_leg(legs: Seq<Option<Leg>>, n: int) -> bool
    decreases n,
{
    n > 0 && (legs[n - 1] is Some || any_leg(legs, n - 1))
}

/// What a route's simulation returns: zero for a route without legs, else
/// the input folded through the legs in order.
pub open spec fn simulated_output(legs: Seq<Option<Leg>>, input: u64) -> Option<u64> {
    if !any_leg(legs, legs.len() as int) {
        Some(0)
    } else {
        chain_prefix(legs, legs.len() as int, input)
    }
}

/// The simulated output where it meets the bound, else zero.
pub open spec fn bounded_output(legs: Seq<Option<Leg>>, input: u64, numerator: u64, denominator: u64) -> u64 {
    match simulated_output(legs, input) {
        Some(output) => if in_bounds(input, output, numerator, denominator) {
            output
        } else {
            0
        },
        None => 0,
    }
}

/// The objective that the maximum-input search climbs.
pub open spec fn bounded_objective(legs: Seq<Option<Leg>>, numerator: u64, denominator: u64) -> spec_fn(u64) -> u64 {
    |x: u64| bounded_output(legs, x, numerator, denominator)
}

proof fn lemma_chain_fails_on(legs: Seq<Option<Leg>>, k: int, n: int, input: u64)
    requires
        0 <= k <= n,
        chain_prefix(legs, k, input) is None,
    ensures
        chain_prefix(legs, n, input) is None,
    decreases n - k,
{
    if k < n {
        lemma_chain_fails_on(legs, k + 1, n, input);
    }
}

/// An ordered chain of at most three legs; slots after the last leg are empty.
pub struct Route {
    pub legs: [Option<Leg>; 3],
}

impl Default for Route {
    fn default() -> (r: Route)
        ensures
            forall|i: int| 0 <= i < MAX_LEGS ==> r.legs@[i] is None,
    {
        Route { legs: [None, None, None] }
    }
}

impl Route {
    /// Whether the legs fill the first slots with no gap.
    pub open spec fn wf(&self) -> bool {
        forall|i: int, j: int| 0 <= i < j < MAX_LEGS && #[trigger] self.legs@[j] is Some ==> #[trigger] self.legs@[i] is Some
    }

    /// The amount of output tokens the route returns for `input_amount`: each
    /// leg trades the previous leg's output. `None` where a leg's arithmetic
    /// fails.
    pub fn simulate_execution(&self, input_amount: u64) -> (r: Option<u64>)
        ensures
            r == simulated_output(self.legs@, input_amount),
    {
        let mut amount = input_amount;
        let mut output: u64 = 0;
        let mut i: usize = 0;
        while i < MAX_LEGS
            invariant
                i <= MAX_LEGS,
                self.legs@.len() == MAX_LEGS,
                chain_prefix(self.legs@, i as int, input_amount) == Some(amount),
                output == (if any_leg(self.legs@, i as int) { amount } else { 0 }),
            decreases MAX_LEGS - i,
        {
            match &self.legs[i] {
                Some(leg) => match leg.simulate_trade(amount) {
                    Some(out) => {
                        amount = out;
                        output = out;
                    },
                    None => {
                        proof {
                            lemma_chain_fails_on(self.legs@, i + 1, MAX_LEGS as int, input_amount);
                            assert(any_leg(self.legs@, i + 1));
                            lemma_any_leg_extends(self.legs@, i + 1, MAX_LEGS as int);
                        }
                        return None;
                    },
                },
                None => {},
            }
            i = i + 1;
        }
        Some(output)
    }

    /// Simulates the route for `input_amount` and tests the result against
    /// the bound. A simulation that fails is out of bounds.
    pub fn simple_price_check(
        &self,
        input_amount: u64,
        bounded_price_numerator: &u64,
        bounded_price_denominator: &u64,
    ) -> (r: bool)
        ensures
            r == (simulated_output(self.legs@, input_amount) matches Some(output) && in_bounds(
                input_amount,
                output,
                *bounded_price_numerator,
                *bounded_price_denominator,
            )),
    {
        match self.simulate_execution(input_amount) {
            Some(output) => is_in_bounds(input_amount, output, bounded_price_numerator, bounded_price_denominator),
            None => false,
        }
    }

    /// Simulates the route but returns zero where the execution price is out
    /// of bounds, so that the search avoids those inputs.
    fn simulate_bounded_execution(
        &self,
        input_amount: u64,
        bounded_price_numerator: &u64,
        bounded_price_denominator: &u64,
    ) -> (r: u64)
        ensures
            r == bounded_output(self.legs@, input_amount, *bounded_price_numerator, *bounded_price_denominator),
    {
        match self.simulate_execution(input_amount) {
            Some(output) => if is_in_bounds(input_amount, output, bounded_price_numerator, bounded_price_denominator) {
                output
            } else {
                0
            },
            None => 0,
        }
    }

    /// Searches `[0, input_tokens_available]` for the input with the largest
    /// in-bounds output, by golden-section search over the bounded simulation.
    pub fn calculate_max_input(
        &self,
        input_tokens_available: u64,
        bounded_price_numerator: &u64,
        bounded_price_denominator: &u64,
        iterations: u8,
    ) -> (r: u64)
        ensures
            r <= input_tokens_available,
            r == golden_section_max(
                bounded_objective(self.legs@, *bounded_price_numerator, *bounded_price_denominator),
                0,
                input_tokens_available as int,
                iterations as nat,
            ),
    {
        let numerator = *bounded_price_numerator;
        let denominator = *bounded_price_denominator;
        let objective = |x: u64| -> (y: u64)
            ensures
                y == bounded_output(self.legs@, x, numerator, denominator),
            { self.simulate_bounded_execution(x, &numerator, &denominator) };
        assert(determines(objective, bounded_objective(self.legs@, numerator, denominator)));
        find_maximum_input(objective, 0, input_tokens_available, iterations as u64)
    }
}

/// Where one leg's accounts lie and what it was built from.
pub struct LegSlot {
    pub dex: DexList,
    pub start: int,
    pub end: int,
    pub decimals: Option<u8>,
    pub lots: Option<MarketLots>,
}

/// The index just past a leg of kind `dex` starting at `start`, or the end of
/// the accounts when fewer are left.
pub open spec fn slot_end(dex: DexList, start: int, len: int) -> int {
    if start + dex.accounts_len() <= len {
        start + dex.accounts_len()
    } else {
        len
    }
}

/// The legs that the accounts from `start` on describe, leg `leg` first:
/// each leg's exchange is named by the program of its first account, its
/// account count follows from that exchange, and an order-book leg takes the
/// next configuration byte and the lot sizes listed for its position. Bytes
/// left over once the accounts run out are an error.
pub open spec fn route_plan(
    accounts: Seq<AccountData>,
    data: Seq<u8>,
    market_lots: Seq<MarketLots>,
    start: int,
    leg: int,
) -> Result<Seq<LegSlot>, ErrorCode>
    decreases accounts.len() - start,
{
    if start < 0 || start >= accounts.len() {
        if data.len() > 0 {
            Err(ErrorCode::UnusedLegData)
        } else {
            Ok(Seq::empty())
        }
    } else {
        match DexList::spec_from_id(accounts[start].key) {
            Err(e) => Err(e),
            Ok(dex) => {
                let end = slot_end(dex, start, accounts.len() as int);
                let slot = accounts.subrange(start, end);
                let decimals = if data.len() > 0 { Some(data[0]) } else { None };
                let lots = if 0 <= leg < market_lots.len() { Some(market_lots[leg]) } else { None };
                match Leg::slot_error(dex, slot, decimals, lots) {
                    Some(e) => Err(e),
                    None => if leg >= MAX_LEGS {
                        Err(ErrorCode::TooManyLegs)
                    } else {
                        let rest = if Leg::takes_byte(dex, slot, decimals, lots) { data.drop_first() } else { data };
                        match route_plan(accounts, rest, market_lots, end, leg + 1) {
                            Err(e) => Err(e),
                            Ok(tail) => Ok(seq![LegSlot { dex, start, end, decimals, lots }] + tail),
                        }
                    },
                }
            },
        }
    }
}

/// Whether `legs` holds, slot by slot, the legs that `slots` describe, and
/// nothing after them.
pub open spec fn legs_match(legs: Seq<Option<Leg>>, accounts: Seq<AccountData>, slots: Seq<LegSlot>) -> bool {
    &&& slots.len() <= MAX_LEGS
    &&& forall|i: int| 0 <= i < slots.len() ==> (#[trigger] legs[i]) is Some && legs[i]->0.built_from(
        slots[i].dex,
        accounts.subrange(slots[i].start, slots[i].end),
        slots[i].decimals,
        slots[i].lots,
    )
    &&& forall|i: int| slots.len() <= i < MAX_LEGS ==> (#[trigger] legs[i]) is None
}

/// The end mint of the last leg among the first `n` slots.
pub open spec fn last_end_mint(legs: Seq<Option<Leg>>, n: int) -> Option<Pubkey>
    decreases n,
{
    if n <= 0 {
        None
    } else if legs[n - 1] is Some {
        Some(legs[n - 1]->0.spec_end_mint())
    } else {
        last_end_mint(legs, n - 1)
    }
}

/// What a bounded trade spends: all of `input_tokens` when that meets the
/// bound, else the searched maximum when that meets it.
pub open spec fn bounded_input(legs: Seq<Option<Leg>>, input_tokens: u64, numerator: u64, denominator: u64) -> Result<u64, ErrorCode> {
    let passes = |x: u64| simulated_output(legs, x) matches Some(output) && in_bounds(x, output, numerator, denominator);
    if passes(input_tokens) {
        Ok(input_tokens)
    } else {
        let candidate = golden_section_max(
            bounded_objective(legs, numerator, denominator),
            0,
            input_tokens as int,
            SEARCH_ITERATIONS as nat,
        );
        if passes(candidate as u64) {
            Ok(candidate as u64)
        } else {
            Err(ErrorCode::MarketPriceIsOutOfBounds)
        }
    }
}

impl Route {
    /// Builds the route from a flat list of accounts: each leg's exchange is
    /// found from its first account, and its fixed account count marks where
    /// the next leg starts. Order-book legs take one byte of
    /// `additional_data` each and the lot sizes at their position in
    /// `market_lots`; the bytes must be used up exactly.
    pub fn create(
        remaining_accounts: &Vec<AccountData>,
        additional_data: VecDeque<u8>,
        market_lots: &Vec<MarketLots>,
    ) -> (r: Result<Route, ErrorCode>)
        ensures
            route_plan(remaining_accounts@, additional_data@, market_lots@, 0, 0) matches Err(e) ==> r == Err::<Route, ErrorCode>(e),
            route_plan(remaining_accounts@, additional_data@, market_lots@, 0, 0) matches Ok(slots) ==> (r matches Ok(route) && route.wf() && legs_match(route.legs@, remaining_accounts@, slots)),
    {
        let ghost accounts = remaining_accounts@;
        let ghost target = route_plan(accounts, additional_data@, market_lots@, 0, 0);
        let mut legs: [Option<Leg>; 3] = [None, None, None];
        let mut account_cursor: usize = 0;
        let mut leg_cursor: usize = 0;
        let mut added_data = additional_data;
        let ghost mut slots: Seq<LegSlot> = Seq::empty();
        while account_cursor < remaining_accounts.len()
            invariant
                accounts == remaining_accounts@,
                target == route_plan(accounts, additional_data@, market_lots@, 0, 0),
                account_cursor <= accounts.len(),
                leg_cursor <= MAX_LEGS,
                slots.len() == leg_cursor,
                legs@.len() == MAX_LEGS,
                target == match route_plan(accounts, added_data@, market_lots@, account_cursor as int, leg_cursor as int) {
                    Err(e) => Err(e),
                    Ok(tail) => Ok(slots + tail),
                },
                forall|i: int| 0 <= i < slots.len() ==> (#[trigger] legs@[i]) is Some && legs@[i]->0.built_from(
                    slots[i].dex,
                    accounts.subrange(slots[i].start, slots[i].end),
                    slots[i].decimals,
                    slots[i].lots,
                ),
                forall|i: int| leg_cursor <= i < MAX_LEGS ==> (#[trigger] legs@[i]) is None,
            decreases accounts.len() - account_cursor,
        {
            let dex = match DexList::from_id(&remaining_accounts[account_cursor].key) {
                Ok(dex) => dex,
                Err(e) => return Err(e),
            };
            let remaining = remaining_accounts.len() - account_cursor;
            let end_index = if remaining >= dex.accounts_len_exec() {
                dex.get_end_account_idx(account_cursor)
            } else {
                remaining_accounts.len()
            };
            let account_infos = vstd::slice::slice_subrange(remaining_accounts.as_slice(), account_cursor, end_index);
            let lots = if leg_cursor < market_lots.len() { Some(market_lots[leg_cursor]) } else { None };
            let ghost decimals = if added_data@.len() > 0 { Some(added_data@[0]) } else { None };
            let ghost data_before = added_data@;
            let leg = match Leg::from_account_slice(dex, account_infos, &mut added_data, lots) {
                Ok(leg) => leg,
                Err(e) => return Err(e),
            };
            if leg_cursor >= MAX_LEGS {
                return Err(ErrorCode::TooManyLegs);
            }
            let ghost slot = LegSlot { dex, start: account_cursor as int, end: end_index as int, decimals, lots };
            assert(added_data@ == (if Leg::takes_byte(dex, account_infos@, decimals, lots) { data_before.drop_first() } else { data_before }));
            legs[leg_cursor] = Some(leg);
            proof {
                let ghost old_slots = slots;
                slots = slots.push(slot);
                assert forall|t: Seq<LegSlot>| old_slots + (seq![slot] + t) == slots + t by {
                    assert(old_slots + (seq![slot] + t) == (old_slots + seq![slot]) + t);
                    assert(old_slots + seq![slot] == slots);
                }
            }
            account_cursor = end_index;
            leg_cursor = leg_cursor + 1;
        }
        if added_data.len() > 0 {
            return Err(ErrorCode::UnusedLegData);
        }
        proof {
            assert(slots + Seq::<LegSlot>::empty() == slots);
        }
        let route = Route { legs };
        assert(route.legs@ == legs@);
        proof {
            route.wf_from_match(accounts, slots);
        }
        Ok(route)
    }

    proof fn wf_from_match(&self, accounts: Seq<AccountData>, slots: Seq<LegSlot>)
        requires
            legs_match(self.legs@, accounts, slots),
        ensures
            self.wf(),
    {
        assert forall|i: int, j: int| 0 <= i < j < MAX_LEGS && #[trigger] self.legs@[j] is Some implies #[trigger] self.legs@[i] is Some by {
            if j < slots.len() {
                assert(self.legs@[i] is Some);
            } else {
                assert(self.legs@[j] is None);
            }
        }
    }

    /// The mint the route starts from: the first leg's input mint.
    pub fn start_mint(&self) -> (r: Pubkey)
        requires
            self.legs@[0] is Some,
        ensures
            r == self.legs@[0]->0.spec_start_mint(),
    {
        match &self.legs[0] {
            Some(leg) => leg.start_mint(),
            None => [0u8; 32],
        }
    }

    /// The mint the route ends in: the output mint of its last leg.
    pub fn end_mint(&self) -> (r: Pubkey)
        requires
            any_leg(self.legs@, MAX_LEGS as int),
        ensures
            Some(r) == last_end_mint(self.legs@, MAX_LEGS as int),
    {
        let mut i: usize = MAX_LEGS;
        while i > 0
            invariant
                i <= MAX_LEGS,
                self.legs@.len() == MAX_LEGS,
                any_leg(self.legs@, i as int),
                last_end_mint(self.legs@, i as int) == last_end_mint(self.legs@, MAX_LEGS as int),
            decreases i,
        {
            match &self.legs[i - 1] {
                Some(leg) => return leg.end_mint(),
                None => {},
            }
            i = i - 1;
        }
        [0u8; 32]
    }

    /// Checks that the route starts from `input_mint` and ends in
    /// `output_mint`.
    pub fn validate_mints(&self, input_mint: &Pubkey, output_mint: &Pubkey) -> (r: Result<(), ErrorCode>)
        ensures
            r == (if self.legs@[0] is None {
                Err(ErrorCode::EmptyRoute)
            } else if self.legs@[0]->0.spec_start_mint()@ != input_mint@ {
                Err(ErrorCode::InputMintMismatch)
            } else if last_end_mint(self.legs@, MAX_LEGS as int)->0@ != output_mint@ {
                Err(ErrorCode::OutputMintMismatch)
            } else {
                Ok(())
            }),
    {
        if self.legs[0].is_none() {
            return Err(ErrorCode::EmptyRoute);
        }
        assert(any_leg(self.legs@, 1));
        proof {
            lemma_any_leg_extends(self.legs@, 1, MAX_LEGS as int);
        }
        if !same_key(&self.start_mint(), input_mint) {
            return Err(ErrorCode::InputMintMismatch);
        }
        if !same_key(&self.end_mint(), output_mint) {
            return Err(ErrorCode::OutputMintMismatch);
        }
        Ok(())
    }

    /// The amount the leg in slot `index` swaps when the route executes: the
    /// route's input for the first leg, and whatever now sits in the leg's
    /// input account (`input_balance`) for every later leg. `None` for an
    /// empty slot.
    pub fn swap_amount(&self, index: usize, input_tokens: u64, input_balance: u64) -> (r: Option<u64>)
        requires
            index < MAX_LEGS,
        ensures
            r == (if self.legs@[index as int] is None {
                None
            } else if index == 0 {
                Some(input_tokens)
            } else {
                Some(input_balance)
            }),
    {
        if self.legs[index].is_none() {
            None
        } else if index == 0 {
            Some(input_tokens)
        } else {
            Some(input_balance)
        }
    }

    /// The input of a bounded trade: everything available when that meets the
    /// bound, else the searched maximum input when that meets it, else an
    /// out-of-bounds error.
    pub fn bounded_input_amount(
        &self,
        input_tokens: u64,
        bounded_price_numerator: &u64,
        bounded_price_denominator: &u64,
    ) -> (r: Result<u64, ErrorCode>)
        ensures
            r == bounded_input(self.legs@, input_tokens, *bounded_price_numerator, *bounded_price_denominator),
            r matches Ok(x) ==> x <= input_tokens,
    {
        if self.simple_price_check(input_tokens, bounded_price_numerator, bounded_price_denominator) {
            return Ok(input_tokens);
        }
        let input_amount = self.calculate_max_input(
            input_tokens,
            bounded_price_numerator,
            bounded_price_denominator,
            SEARCH_ITERATIONS,
        );
        if !self.simple_price_check(input_amount, bounded_price_numerator, bounded_price_denominator) {
            return Err(ErrorCode::MarketPriceIsOutOfBounds);
        }
        Ok(input_amount)
    }
}

/// Tests the balances measured around an execution against the bound: the
/// input spent and the output gained must meet it, or the trade is rejected.
/// A balance that moved the wrong way is an arithmetic failure.
pub fn check_realized_trade(
    starting_input_balance: u64,
    ending_input_balance: u64,
    starting_destination_balance: u64,
    ending_destination_balance: u64,
    bounded_price_numerator: &u64,
    bounded_price_denominator: &u64,
) -> (r: Result<(), ErrorCode>)
    ensures
        r == (if ending_input_balance > starting_input_balance
            || starting_destination_balance > ending_destination_balance {
            Err(ErrorCode::ArithmeticFailure)
        } else if in_bounds(
            (starting_input_balance - ending_input_balance) as u64,
            (ending_destination_balance - starting_destination_balance) as u64,
            *bounded_price_numerator,
            *bounded_price_denominator,
        ) {
            Ok(())
        } else {
            Err(ErrorCode::MarketPriceIsOutOfBounds)
        }),
{
    let input_tokens_used = match starting_input_balance.checked_sub(ending_input_balance) {
        Some(used) => used,
        None => return Err(ErrorCode::ArithmeticFailure),
    };
    let destination_tokens_gained = match ending_destination_balance.checked_sub(starting_destination_balance) {
        Some(gained) => gained,
        None => return Err(ErrorCode::ArithmeticFailure),
    };
    if !is_in_bounds(input_tokens_used, destination_tokens_gained, bounded_price_numerator, bounded_price_denominator) {
        return Err(ErrorCode::MarketPriceIsOutOfBounds);
    }
    Ok(())
}

/// A trade of nothing for nothing never meets a bound. Otherwise the check is
/// one inequality read from either side: a trade meets the bound or the
/// mirrored trade (output for input) meets the inverted bound, and both hold
/// exactly when the price equals the bound.
pub proof fn lemma_bound_symmetry(input: u64, output: u64, numerator: u64, denominator: u64)
    ensures
        !in_bounds(0, 0, numerator, denominator),
        numerator as int * output as int != 0 || input as int * denominator as int != 0 ==> (in_bounds(
            input,
            output,
            numerator,
            denominator,
        ) || in_bounds(output, input, denominator, numerator)),
        numerator as int * output as int != 0 || input as int * denominator as int != 0 ==> ((in_bounds(
            input,
            output,
            numerator,
            denominator,
        ) && in_bounds(output, input, denominator, numerator)) <==> input as int * denominator as int
            == numerator as int * output as int),
{
    assert(numerator as int * 0 == 0 && 0 * denominator as int == 0);
    assert(input as int * denominator as int == denominator as int * input as int) by (nonlinear_arith);
    assert(numerator as int * output as int == output as int * numerator as int) by (nonlinear_arith);
}

/// A bounded trade only ever spends an amount that is at most what is
/// available and whose simulated trade meets the bound.
pub proof fn lemma_bounded_input_meets_bound(route: Route, input_tokens: u64, numerator: u64, denominator: u64)
    ensures
        bounded_input(route.legs@, input_tokens, numerator, denominator) matches Ok(x) ==> (x <= input_tokens
            && (simulated_output(route.legs@, x) matches Some(output) && in_bounds(x, output, numerator, denominator))),
{
    let legs = route.legs@;
    let candidate = golden_section_max(
        bounded_objective(legs, numerator, denominator),
        0,
        input_tokens as int,
        SEARCH_ITERATIONS as nat,
    );
    if bounded_input(legs, input_tokens, numerator, denominator) is Ok && bounded_input(legs, input_tokens, numerator, denominator) != Ok::<u64, ErrorCode>(input_tokens) {
        lemma_golden_section_in_bracket(bounded_objective(legs, numerator, denominator), 0, input_tokens as int, SEARCH_ITERATIONS as nat);
        assert(candidate <= input_tokens);
    }
}

/// A route of two legs simulates as the second leg trading the first leg's
/// output.
pub proof fn lemma_two_leg_route(route: Route, input: u64)
    requires
        route.legs@[0] is Some,
        route.legs@[1] is Some,
        route.legs@[2] is None,
    ensures
        simulated_output(route.legs@, input) == match route.legs@[0]->0.spec_simulate_trade(input) {
            None => None,
            Some(middle) => route.legs@[1]->0.spec_simulate_trade(middle),
        },
{
    reveal_with_fuel(chain_prefix, 4);
    reveal_with_fuel(any_leg, 4);
}

proof fn lemma_any_leg_extends(legs: Seq<Option<Leg>>, k: int, n: int)
    requires
        0 <= k <= n,
        any_leg(legs, k),
    ensures
        any_leg(legs, n),
    decreases n - k,
{
    if k < n {
        lemma_any_leg_extends(legs, k, n - 1);
    }
}

} // verus!
