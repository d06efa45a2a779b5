//! Exact integer arithmetic shared by the simulators.
use vstd::prelude::*;

verus! {

/// `a * b / divisor` computed exactly, or `None` when the divisor is zero or
/// the quotient does not fit in 64 bits.
pub open spec fn mul_div(a: u64, b: u64, divisor: u64) -> Option<u64> {
    if divisor == 0 || (a as int) * (b as int) / (divisor as int) > u64::MAX as int {
        None
    } else {
        Some(((a as int) * (b as int) / (divisor as int)) as u64)
    }
}

/// Multiplies two u64's then divides by a u64, through a 128-bit intermediate.
pub fn mul_div_u64(a: u64, b: u64, divisor: u64) -> (r: Option<u64>)
    ensures
        r == mul_div(a, b, divisor),
{
    if divisor == 0 {
        return None;
    }
    assert((a as int) * (b as int) <= u64::MAX as int * u64::MAX as int) by (nonlinear_arith);
    let product: u128 = (a as u128) * (b as u128);
    let quotient: u128 = product / (divisor as u128);
    if quotient > u64::MAX as u128 {
        None
    } else {
        Some(quotient as u64)
    }
}


/// `price * decimals_factor / coin_lot_size`, scaled by `pc_lot_size`: an
/// exchange-native lot price rescaled into token decimals.
pub open spec fn price_in_decimals(
    price: u64,
    coin_lot_size: u64,
    coin_decimals_factor: u64,
    pc_lot_size: u64,
) -> Option<u64> {
    match mul_div(price, coin_decimals_factor, coin_lot_size) {
        Some(q) => if (pc_lot_size as int) * (q as int) <= u64::MAX as int {
            Some(((pc_lot_size as int) * (q as int)) as u64)
        } else {
            None
        },
        None => None,
    }
}

/// Converts a lot price into token decimals: `pc_lot_size * price * factor / coin_lot_size`.
/// The lot sizes must be such that the conversion is defined.
pub fn convert_price_to_decimals(
    price: u64,
    coin_lot_size: u64,
    coin_decimals_factor: u64,
    pc_lot_size: u64,
) -> (r: u64)
    requires
        price_in_decimals(price, coin_lot_size, coin_decimals_factor, pc_lot_size) is Some,
    ensures
        Some(r) == price_in_decimals(price, coin_lot_size, coin_decimals_factor, pc_lot_size),
{
    let q = mul_div_u64(price, coin_decimals_factor, coin_lot_size).unwrap();
    pc_lot_size * q
}

/// The constant-product pool output: `out_pool * amount_in / (in_pool + amount_in)`,
/// `None` when both the pool and the input are empty.
pub open spec fn constant_product_out(amount_in: u64, in_pool: u64, out_pool: u64) -> Option<u64> {
    if in_pool as int + amount_in as int == 0 {
        None
    } else {
        Some((out_pool as int * amount_in as int / (in_pool as int + amount_in as int)) as u64)
    }
}

/// Swaps `amount_in` (after fees) against a constant-product pool holding
/// `in_pool` of the input token and `out_pool` of the output token.
pub fn constant_product_simulation(amount_in: u64, in_pool: u64, out_pool: u64) -> (r: Option<u64>)
    ensures
        r == constant_product_out(amount_in, in_pool, out_pool),
        r matches Some(out) ==> out <= out_pool,
{
    let denominator: u128 = in_pool as u128 + amount_in as u128;
    if denominator == 0 {
        return None;
    }
    assert(out_pool as int * amount_in as int <= u64::MAX as int * u64::MAX as int) by (nonlinear_arith);
    assert(out_pool as int * amount_in as int / denominator as int <= out_pool) by (nonlinear_arith)
        requires denominator as int == in_pool as int + amount_in as int, denominator > 0, in_pool >= 0;
    let out: u128 = (out_pool as u128 * amount_in as u128) / denominator;
    Some(out as u64)
}

// Golden-section search with the ratio constants pre-scaled by `SCALE_FACTOR`.
pub const SCALE_FACTOR: u64 = 1_000;

/// `1000 * (sqrt(5) - 1) / 2`, truncated.
pub const INVPHI: u64 = 618;

/// `1000 * (3 - sqrt(5)) / 2`, truncated.
pub const INVPHI_2: u64 = 381;

/// The bracket width after one step: `INVPHI * h / SCALE_FACTOR`.
pub open spec fn shrink(h: int) -> int {
    INVPHI as int * h / SCALE_FACTOR as int
}

/// The offset of the lower probe inside a bracket of width `h`.
pub open spec fn inner_offset(h: int) -> int {
    INVPHI_2 as int * h / SCALE_FACTOR as int
}

/// The state of the search: bracket `[a, b]`, probes `c` and `d` with their
/// values, and the current width `h`.
pub struct Bracket {
    pub a: int,
    pub b: int,
    pub c: int,
    pub d: int,
    pub fc: int,
    pub fd: int,
    pub h: int,
}

pub open spec fn bracket_start(f: spec_fn(u64) -> u64, lower: int, upper: int) -> Bracket {
    let h = upper - lower;
    let c = lower + inner_offset(h);
    let d = lower + shrink(h);
    Bracket { a: lower, b: upper, c, d, fc: f(c as u64) as int, fd: f(d as u64) as int, h }
}

/// One step: keep the side of the better probe and place one new probe.
pub open spec fn bracket_step(f: spec_fn(u64) -> u64, s: Bracket) -> Bracket {
    let h = shrink(s.h);
    if s.fc > s.fd {
        let c = s.a + inner_offset(h);
        Bracket { a: s.a, b: s.d, c, d: s.c, fc: f(c as u64) as int, fd: s.fc, h }
    } else {
        let d = s.c + shrink(h);
        Bracket { a: s.c, b: s.b, c: s.d, d, fc: s.fd, fd: f(d as u64) as int, h }
    }
}

pub open spec fn bracket_after(f: spec_fn(u64) -> u64, s: Bracket, n: nat) -> Bracket
    decreases n,
{
    if n == 0 {
        s
    } else {
        bracket_step(f, bracket_after(f, s, (n - 1) as nat))
    }
}

/// The point returned from a final bracket: the middle of the part that holds
/// the better probe.
pub open spec fn bracket_pick(s: Bracket) -> int {
    if s.fc > s.fd {
        (s.a + s.b) / 2
    } else {
        (s.c + s.b) / 2
    }
}

/// What the search returns for objective `f` on `[lower, upper]`: the pick
/// after `iterations + 1` steps.
pub open spec fn golden_section_max(
    f: spec_fn(u64) -> u64,
    lower: int,
    upper: int,
    iterations: nat,
) -> int {
    bracket_pick(bracket_after(f, bracket_start(f, lower, upper), iterations + 1))
}

/// Every result of `func` on `x` is `f(x)`.
pub open spec fn determines<F: Fn(u64) -> u64>(func: F, f: spec_fn(u64) -> u64) -> bool {
    forall|x: u64, y: u64| func.ensures((x,), y) ==> y == f(x)
}

proof fn lemma_shrink_facts(h: int)
    requires
        h >= 0,
    ensures
        0 <= shrink(h) <= h,
        0 <= inner_offset(h) <= h,
        inner_offset(h) + shrink(h) <= h,
        shrink(h) + shrink(shrink(h)) <= h,
        0 <= shrink(shrink(h)) <= shrink(h),
{
    assert(0 <= 618 * h / 1000 <= h) by (nonlinear_arith)
        requires h >= 0;
    assert(0 <= 381 * h / 1000 <= h) by (nonlinear_arith)
        requires h >= 0;
    assert(381 * h / 1000 + 618 * h / 1000 <= h) by (nonlinear_arith)
        requires h >= 0;
    let s = 618 * h / 1000;
    assert(0 <= 618 * s / 1000 <= s) by (nonlinear_arith)
        requires s >= 0;
    assert(s + 618 * s / 1000 <= h) by (nonlinear_arith)
        requires h >= 0, s == 618 * h / 1000;
}

/// The bracket keeps all probes inside `[lower, upper]` with room for the
/// next step.
pub open spec fn bracket_in_range(s: Bracket, lower: int, upper: int) -> bool {
    &&& lower <= s.a
    &&& lower <= s.c
    &&& lower <= s.d
    &&& lower <= s.b <= upper
    &&& s.h >= 0
    &&& s.a + s.h <= upper
    &&& s.c + shrink(s.h) <= upper
    &&& s.d + shrink(shrink(s.h)) <= upper
}

proof fn lemma_step_in_range(f: spec_fn(u64) -> u64, s: Bracket, lower: int, upper: int)
    requires
        bracket_in_range(s, lower, upper),
    ensures
        bracket_in_range(bracket_step(f, s), lower, upper),
{
    lemma_shrink_facts(s.h);
    lemma_shrink_facts(shrink(s.h));
    lemma_shrink_facts(shrink(shrink(s.h)));
}

proof fn lemma_after_in_range(f: spec_fn(u64) -> u64, s: Bracket, n: nat, lower: int, upper: int)
    requires
        bracket_in_range(s, lower, upper),
    ensures
        bracket_in_range(bracket_after(f, s, n), lower, upper),
    decreases n,
{
    if n > 0 {
        lemma_after_in_range(f, s, (n - 1) as nat, lower, upper);
        lemma_step_in_range(f, bracket_after(f, s, (n - 1) as nat), lower, upper);
    }
}

/// Whatever the objective, the search returns a point of its bracket.
pub proof fn lemma_golden_section_in_bracket(f: spec_fn(u64) -> u64, lower: int, upper: int, iterations: nat)
    requires
        0 <= lower <= upper,
    ensures
        lower <= golden_section_max(f, lower, upper, iterations) <= upper,
{
    lemma_shrink_facts(upper - lower);
    let s = bracket_start(f, lower, upper);
    assert(bracket_in_range(s, lower, upper));
    lemma_after_in_range(f, s, iterations + 1, lower, upper);
}

/// Maximizes `func` over `[lower_bound, upper_bound]` by golden-section search
/// run for `iterations + 1` steps. `func` is only ever called inside the
/// bracket, and the result always lies in it; for a deterministic `func` it
/// is exactly `golden_section_max` of it.
pub fn find_maximum_input<F: Fn(u64) -> u64>(
    func: F,
    lower_bound: u64,
    upper_bound: u64,
    iterations: u64,
) -> (r: u64)
    requires
        lower_bound <= upper_bound,
        forall|x: u64| lower_bound <= x <= upper_bound ==> func.requires((x,)),
    ensures
        lower_bound <= r <= upper_bound,
        forall|f: spec_fn(u64) -> u64|
            #[trigger] determines(func, f) ==> r == golden_section_max(
                f,
                lower_bound as int,
                upper_bound as int,
                iterations as nat,
            ),
{
    find_max_via_golden_section_search(func, lower_bound, upper_bound, iterations)
}

/// `ratio * h / SCALE_FACTOR` for a ratio of at most one, through a 128-bit
/// intermediate.
fn scaled(ratio: u64, h: u64) -> (r: u64)
    requires
        ratio <= SCALE_FACTOR,
    ensures
        r == ratio as int * h as int / SCALE_FACTOR as int,
{
    assert(ratio as int * h as int / 1000 <= h) by (nonlinear_arith)
        requires ratio <= 1000;
    assert(ratio as int * h as int <= 1000 * u64::MAX) by (nonlinear_arith)
        requires ratio <= 1000, h <= u64::MAX;
    ((ratio as u128 * h as u128) / SCALE_FACTOR as u128) as u64
}

/// The executable state of the search; its view is the `Bracket`.
struct SearchState {
    a: u64,
    b: u64,
    c: u64,
    d: u64,
    fc: u64,
    fd: u64,
    h: u64,
}

impl SearchState {
    spec fn bracket(&self) -> Bracket {
        Bracket {
            a: self.a as int,
            b: self.b as int,
            c: self.c as int,
            d: self.d as int,
            fc: self.fc as int,
            fd: self.fd as int,
            h: self.h as int,
        }
    }
}

/// The first bracket: the whole interval with both probes placed.
fn search_start<F: Fn(u64) -> u64>(func: &F, lower_bound: u64, upper_bound: u64) -> (s: SearchState)
    requires
        lower_bound <= upper_bound,
        forall|x: u64| lower_bound <= x <= upper_bound ==> func.requires((x,)),
    ensures
        bracket_in_range(s.bracket(), lower_bound as int, upper_bound as int),
        forall|f: spec_fn(u64) -> u64| #[trigger] determines(*func, f) ==> s.bracket()
            == bracket_start(f, lower_bound as int, upper_bound as int),
{
    let h = upper_bound - lower_bound;
    proof {
        lemma_shrink_facts(h as int);
    }
    let c = lower_bound + scaled(INVPHI_2, h);
    let d = lower_bound + scaled(INVPHI, h);
    let fc = func(c);
    let fd = func(d);
    SearchState { a: lower_bound, b: upper_bound, c, d, fc, fd, h }
}

/// One narrowing step of the search.
fn search_step<F: Fn(u64) -> u64>(func: &F, s: SearchState, Ghost(lower): Ghost<int>, Ghost(upper): Ghost<int>) -> (t: SearchState)
    requires
        bracket_in_range(s.bracket(), lower, upper),
        upper <= u64::MAX,
        forall|x: u64| lower <= x <= upper ==> func.requires((x,)),
    ensures
        bracket_in_range(t.bracket(), lower, upper),
        forall|f: spec_fn(u64) -> u64| #[trigger] determines(*func, f) ==> t.bracket()
            == bracket_step(f, s.bracket()),
{
    proof {
        lemma_shrink_facts(s.h as int);
        lemma_shrink_facts(shrink(s.h as int));
        lemma_shrink_facts(shrink(shrink(s.h as int)));
    }
    let h = scaled(INVPHI, s.h);
    if s.fc > s.fd {
        let c = s.a + scaled(INVPHI_2, h);
        let fc = func(c);
        SearchState { a: s.a, b: s.d, c, d: s.c, fc, fd: s.fc, h }
    } else {
        let d = s.c + scaled(INVPHI, h);
        let fd = func(d);
        SearchState { a: s.c, b: s.b, c: s.d, d, fc: s.fd, fd, h }
    }
}

fn find_max_via_golden_section_search<F: Fn(u64) -> u64>(
    func: F,
    lower_bound: u64,
    upper_bound: u64,
    iterations: u64,
) -> (r: u64)
    requires
        lower_bound <= upper_bound,
        forall|x: u64| lower_bound <= x <= upper_bound ==> func.requires((x,)),
    ensures
        lower_bound <= r <= upper_bound,
        forall|f: spec_fn(u64) -> u64|
            #[trigger] determines(func, f) ==> r == golden_section_max(
                f,
                lower_bound as int,
                upper_bound as int,
                iterations as nat,
            ),
{
    let ghost lo = lower_bound as int;
    let ghost up = upper_bound as int;
    let mut s = search_start(&func, lower_bound, upper_bound);
    let mut k: u128 = 0;
    while k <= iterations as u128
        invariant
            forall|x: u64| lo <= x <= up ==> func.requires((x,)),
            k <= iterations as u128 + 1,
            up <= u64::MAX,
            bracket_in_range(s.bracket(), lo, up),
            forall|f: spec_fn(u64) -> u64| #[trigger] determines(func, f) ==> bracket_after(
                f,
                bracket_start(f, lo, up),
                k as nat,
            ) == s.bracket(),
        decreases iterations as u128 + 1 - k,
    {
        let ghost before = s.bracket();
        s = search_step(&func, s, Ghost(lo), Ghost(up));
        assert forall|f: spec_fn(u64) -> u64| #[trigger] determines(func, f) implies bracket_after(
            f,
            bracket_start(f, lo, up),
            (k + 1) as nat,
        ) == s.bracket() by {
            assert(bracket_after(f, bracket_start(f, lo, up), k as nat) == before);
        }
        k = k + 1;
    }
    if s.fc > s.fd {
        ((s.a as u128 + s.b as u128) / 2) as u64
    } else {
        ((s.c as u128 + s.b as u128) / 2) as u64
    }
}

} // verus!
