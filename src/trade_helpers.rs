use vstd::prelude::*;

use crate::constants::{
    BASIS_POINTS, EXECUTION_FEE_BPS, FUNDING_FEE_8H_BPS, FUNDING_FEE_HOURS,
    FUNDING_INTERVAL_SECONDS, MAINTENANCE_MARGIN_BPS, MAX_LEVERAGE, MAX_PNL, MAX_PRICE,
    MAX_QUANTITY, MAX_TIMESTAMP, MIN_TIMESTAMP, ROE_SCALE, SECONDS_PER_DAY, SECONDS_PER_HOUR,
};
use crate::models::TradeDirection;

verus! {

/// Liquidation price of a position: for a long,
/// `entry * (1 - 1/leverage + mm/leverage)` rounded down, for a short
/// `entry * (1 + 1/leverage - mm/leverage)` rounded up, so that the two lie
/// on either side of the entry price at the same distance.
pub open spec fn liquidation_price_spec(entry: int, leverage: int, direction: TradeDirection) -> int {
    let bps = BASIS_POINTS as int;
    let mm = MAINTENANCE_MARGIN_BPS as int;
    match direction {
        TradeDirection::Long => entry * (bps * leverage - bps + mm) / (bps * leverage),
        TradeDirection::Short => (entry * (bps * leverage + bps - mm) + bps * leverage - 1) / (bps
            * leverage),
    }
}

/// Calculates the liquidation price of a trade from its entry price, leverage
/// and direction, taking the maintenance margin into account.
pub fn calc_liquidation_price(entry_price: u64, leverage: u64, direction: TradeDirection) -> (r: u64)
    requires
        entry_price <= MAX_PRICE,
        1 <= leverage <= MAX_LEVERAGE,
    ensures
        r == liquidation_price_spec(entry_price as int, leverage as int, direction),
{
    assert(BASIS_POINTS == 10_000);
    let denominator: u128 = (BASIS_POINTS as u128) * (leverage as u128);
    assert(10_000 <= denominator <= 100_000) by (nonlinear_arith)
        requires
            denominator == 10_000 * leverage,
            1 <= leverage <= 10,
    ;
    let factor: u128 = match direction {
        TradeDirection::Long => denominator - BASIS_POINTS as u128 + MAINTENANCE_MARGIN_BPS as u128,
        TradeDirection::Short => denominator + BASIS_POINTS as u128 - MAINTENANCE_MARGIN_BPS as u128,
    };
    assert(entry_price * factor <= MAX_PRICE * 200_000) by (nonlinear_arith)
        requires
            entry_price <= MAX_PRICE,
            factor <= 200_000,
    ;
    let product: u128 = (entry_price as u128) * factor;
    let scaled: u128 = match direction {
        TradeDirection::Long => product,
        TradeDirection::Short => product + denominator - 1,
    };
    assert(scaled / denominator <= 2 * MAX_PRICE + 1) by (nonlinear_arith)
        requires
            scaled <= entry_price * factor + denominator,
            entry_price <= MAX_PRICE,
            factor <= 2 * denominator,
            denominator >= 10_000,
    ;
    (scaled / denominator) as u64
}

/// Largest notional value (price times quantity) of a trade within the engine's bounds.
pub open spec fn max_notional() -> int {
    MAX_PRICE as int * MAX_QUANTITY as int
}

/// Notional value of `quantity` units at `price`, in amount units.
pub open spec fn notional_spec(quantity: int, price: int) -> int {
    quantity * price
}

/// Execution fee of a trade: the fee rate applied to the entry notional,
/// doubled for the opening and the closing leg, rounded down.
pub open spec fn execution_fee_spec(quantity: int, entry: int) -> int {
    notional_spec(quantity, entry) * (2 * EXECUTION_FEE_BPS as int) / (BASIS_POINTS as int)
}

/// Price movement profit of a trade, before fees.
pub open spec fn raw_pnl_spec(entry: int, exit: int, quantity: int, direction: TradeDirection) -> int {
    match direction {
        TradeDirection::Long => (exit - entry) * quantity,
        TradeDirection::Short => (entry - exit) * quantity,
    }
}

/// Realized profit and loss: the raw profit minus both fees.
pub open spec fn pnl_spec(
    entry: int,
    exit: int,
    quantity: int,
    execution_fees: int,
    funding_fees: int,
    direction: TradeDirection,
) -> int {
    raw_pnl_spec(entry, exit, quantity, direction) - execution_fees - funding_fees
}

/// Return on equity in hundredths of a percent: `pnl / (entry * quantity / leverage) * 100`,
/// rounded down.
pub open spec fn roe_spec(pnl: int, entry: int, quantity: int, leverage: int) -> int {
    pnl * leverage * (100 * ROE_SCALE as int) / (entry * quantity)
}

/// Whether a timestamp lies in the range of representable UTC date-times.
pub open spec fn valid_timestamp(ts: int) -> bool {
    MIN_TIMESTAMP <= ts <= MAX_TIMESTAMP
}

/// The first configured funding hour, at or after index `from`, that is later than `hour`.
pub open spec fn first_funding_hour_after(hours: Seq<u8>, hour: int, from: int) -> Option<int>
    decreases hours.len() - from,
{
    if from < 0 || from >= hours.len() {
        None
    } else if hour < hours[from] as int {
        Some(hours[from] as int)
    } else {
        first_funding_hour_after(hours, hour, from + 1)
    }
}

/// The first funding instant strictly after `ts`: the next funding hour of the
/// same UTC day, or else the first funding hour of the following day.
pub open spec fn next_funding_time_spec(ts: int) -> int {
    let day = SECONDS_PER_DAY as int;
    let day_start = ts - ts % day;
    let hour = (ts % day) / (SECONDS_PER_HOUR as int);
    match first_funding_hour_after(FUNDING_FEE_HOURS@, hour, 0) {
        Some(h) => day_start + h * SECONDS_PER_HOUR,
        None => day_start + day + FUNDING_FEE_HOURS@[0] * SECONDS_PER_HOUR,
    }
}

/// Number of funding instants in `(open, close]`, walking from the first
/// instant after `open` in steps of one funding interval.
pub open spec fn funding_instants_spec(open: int, close: int) -> int {
    let first = next_funding_time_spec(open);
    if close <= open || close < first {
        0
    } else {
        (close - first) / (FUNDING_INTERVAL_SECONDS as int) + 1
    }
}

/// Funding fee charged at one funding instant on the given average notional value.
pub open spec fn funding_fee_per_instant(average_notional: int) -> int {
    average_notional * (FUNDING_FEE_8H_BPS as int) / (BASIS_POINTS as int)
}

/// Funding fee of a trade held from `open` to `close`.
pub open spec fn funding_fee_spec(open: int, close: int, average_notional: int) -> int {
    funding_instants_spec(open, close) * funding_fee_per_instant(average_notional)
}

/// Largest number of funding instants between two representable timestamps.
pub open spec fn max_funding_instants() -> int {
    (MAX_TIMESTAMP - MIN_TIMESTAMP) / (FUNDING_INTERVAL_SECONDS as int) + 1
}

/// Calculates the profit and loss of a trade: the price movement times the
/// quantity (in the trade's direction), minus execution and funding fees.
pub fn calc_pnl(
    entry_price: u64,
    exit_price: u64,
    quantity: u64,
    execution_fees: i128,
    funding_fees: i128,
    direction: TradeDirection,
) -> (r: i128)
    requires
        entry_price <= MAX_PRICE,
        exit_price <= MAX_PRICE,
        quantity <= MAX_QUANTITY,
        -MAX_PNL <= execution_fees <= MAX_PNL,
        -MAX_PNL <= funding_fees <= MAX_PNL,
    ensures
        r == pnl_spec(
            entry_price as int,
            exit_price as int,
            quantity as int,
            execution_fees as int,
            funding_fees as int,
            direction,
        ),
{
    assert(MAX_PRICE == 1_000_000_000_000_000 && MAX_QUANTITY == 10_000_000_000_000);
    assert(MAX_PNL == 1_000_000_000_000_000_000_000_000_000_000_000);
    let difference: i128 = match direction {
        TradeDirection::Long => exit_price as i128 - entry_price as i128,
        TradeDirection::Short => entry_price as i128 - exit_price as i128,
    };
    assert(-MAX_PRICE * MAX_QUANTITY <= difference * quantity <= MAX_PRICE * MAX_QUANTITY)
        by (nonlinear_arith)
        requires
            -MAX_PRICE <= difference <= MAX_PRICE,
            0 <= quantity <= MAX_QUANTITY,
    ;
    let raw: i128 = difference * quantity as i128;
    raw - execution_fees - funding_fees
}

/// Calculates the return on equity of a trade in hundredths of a percent:
/// the PnL relative to the margin used, `entry_price * quantity / leverage`.
pub fn calc_roe(pnl: i128, entry_price: u64, quantity: u64, leverage: u64) -> (r: i128)
    requires
        -MAX_PNL <= pnl <= MAX_PNL,
        1 <= entry_price <= MAX_PRICE,
        1 <= quantity <= MAX_QUANTITY,
        1 <= leverage <= MAX_LEVERAGE,
    ensures
        r == roe_spec(pnl as int, entry_price as int, quantity as int, leverage as int),
{
    assert(MAX_PRICE == 1_000_000_000_000_000 && MAX_QUANTITY == 10_000_000_000_000);
    assert(MAX_PNL == 1_000_000_000_000_000_000_000_000_000_000_000);
    assert(ROE_SCALE == 100);
    let scale: i128 = (leverage as i128) * (100 * ROE_SCALE);
    assert(-MAX_PNL * 100_000 <= pnl * scale <= MAX_PNL * 100_000) by (nonlinear_arith)
        requires
            -MAX_PNL <= pnl <= MAX_PNL,
            1 <= scale <= 100_000,
    ;
    let numerator: i128 = pnl * scale;
    assert(numerator == pnl * leverage * (100 * ROE_SCALE)) by (nonlinear_arith)
        requires
            numerator == pnl * scale,
            scale == leverage * (100 * ROE_SCALE),
    ;
    assert(1 <= (entry_price as int) * (quantity as int) <= MAX_PRICE * MAX_QUANTITY)
        by (nonlinear_arith)
        requires
            1 <= entry_price <= MAX_PRICE,
            1 <= quantity <= MAX_QUANTITY,
    ;
    let margin: u128 = (entry_price as u128) * (quantity as u128);
    if numerator >= 0 {
        ((numerator as u128) / margin) as i128
    } else {
        let magnitude: u128 = (-numerator) as u128;
        let rounded_up: u128 = (magnitude + margin - 1) / margin;
        proof {
            lemma_floor_of_negated(magnitude as int, margin as int);
        }
        -(rounded_up as i128)
    }
}

/// Rounding `-a / m` down is the negation of rounding `a / m` up.
proof fn lemma_floor_of_negated(a: int, m: int)
    requires
        0 <= a,
        0 < m,
    ensures
        (-a) / m == -((a + m - 1) / m),
        0 <= (a + m - 1) / m <= a,
{
    let q = (a + m - 1) / m;
    let r = (a + m - 1) % m;
    vstd::arithmetic::div_mod::lemma_fundamental_div_mod(a + m - 1, m);
    vstd::arithmetic::div_mod::lemma_mod_bound(a + m - 1, m);
    // -a == (-q) * m + (m - 1 - r), with 0 <= m - 1 - r < m
    assert(-a == (-q) * m + (m - 1 - r)) by (nonlinear_arith)
        requires
            a + m - 1 == m * q + r,
    ;
    vstd::arithmetic::div_mod::lemma_fundamental_div_mod_converse(-a, m, -q, m - 1 - r);
    assert(0 <= q) by (nonlinear_arith)
        requires
            a + m - 1 == m * q + r,
            0 <= r < m,
            0 <= a,
    ;
    assert(q <= a) by (nonlinear_arith)
        requires
            a + m - 1 == m * q + r,
            0 <= r < m,
            0 <= a,
            0 < m,
    ;
}

/// Calculates the execution fee of a trade, charging the fee rate on the
/// entry notional once for opening and once for closing.
pub fn calc_final_execution_fees(quantity: u64, entry_price: u64) -> (r: i128)
    requires
        quantity <= MAX_QUANTITY,
        entry_price <= MAX_PRICE,
    ensures
        r == execution_fee_spec(quantity as int, entry_price as int),
        0 <= r <= max_notional() / 1000,
{
    assert(MAX_PRICE == 1_000_000_000_000_000 && MAX_QUANTITY == 10_000_000_000_000);
    assert(EXECUTION_FEE_BPS == 5 && BASIS_POINTS == 10_000);
    assert(0 <= (quantity as int) * (entry_price as int) <= MAX_PRICE * MAX_QUANTITY)
        by (nonlinear_arith)
        requires
            quantity <= MAX_QUANTITY,
            entry_price <= MAX_PRICE,
    ;
    let notional: u128 = (quantity as u128) * (entry_price as u128);
    let rate: u128 = 2 * EXECUTION_FEE_BPS as u128;
    assert(notional * rate <= max_notional() * 10) by (nonlinear_arith)
        requires
            notional <= max_notional(),
            rate == 10,
    ;
    let fee: u128 = notional * rate / (BASIS_POINTS as u128);
    fee as i128
}

/// Returns the first funding instant strictly after `timestamp`.
pub fn get_next_funding_time(timestamp: i64) -> (r: i64)
    requires
        valid_timestamp(timestamp as int),
    ensures
        r == next_funding_time_spec(timestamp as int),
        timestamp < r <= timestamp + FUNDING_INTERVAL_SECONDS,
        (r as int) % (FUNDING_INTERVAL_SECONDS as int) == 0,
{
    assert(SECONDS_PER_DAY == 86_400 && SECONDS_PER_HOUR == 3_600);
    assert(FUNDING_INTERVAL_SECONDS == 28_800);
    assert(FUNDING_FEE_HOURS@ =~= seq![0u8, 8u8, 16u8]);
    let truncated: i64 = timestamp % SECONDS_PER_DAY;
    let seconds_into_day: i64 = if truncated < 0 {
        truncated + SECONDS_PER_DAY
    } else {
        truncated
    };
    assert(seconds_into_day == timestamp % 86_400);
    let day_start: i64 = timestamp - seconds_into_day;
    let hour: i64 = seconds_into_day / SECONDS_PER_HOUR;
    proof {
        vstd::arithmetic::div_mod::lemma_fundamental_div_mod(timestamp as int, 86_400);
    }
    let mut i: usize = 0;
    while i < FUNDING_FEE_HOURS.len()
        invariant
            0 <= i <= 3,
            FUNDING_FEE_HOURS@ =~= seq![0u8, 8u8, 16u8],
            SECONDS_PER_HOUR == 3_600,
            valid_timestamp(timestamp as int),
            0 <= seconds_into_day < 86_400,
            hour == seconds_into_day / 3_600,
            day_start == timestamp - seconds_into_day,
            day_start == 86_400 * (timestamp as int / 86_400),
            seconds_into_day == timestamp % 86_400,
            i >= 1 ==> hour >= 0,
            i >= 2 ==> hour >= 8,
            i >= 3 ==> hour >= 16,
            first_funding_hour_after(FUNDING_FEE_HOURS@, hour as int, 0)
                == first_funding_hour_after(FUNDING_FEE_HOURS@, hour as int, i as int),
        decreases 3 - i,
    {
        let funding_hour: u8 = FUNDING_FEE_HOURS[i];
        if hour < funding_hour as i64 {
            let r: i64 = day_start + (funding_hour as i64) * SECONDS_PER_HOUR;
            proof {
                let q = timestamp as int / 86_400;
                vstd::arithmetic::div_mod::lemma_fundamental_div_mod_converse(
                    r as int,
                    28_800,
                    3 * q + funding_hour / 8,
                    0,
                );
            }
            return r;
        }
        i = i + 1;
    }
    let r: i64 = day_start + SECONDS_PER_DAY + (FUNDING_FEE_HOURS[0] as i64) * SECONDS_PER_HOUR;
    proof {
        reveal_with_fuel(first_funding_hour_after, 2);
        let q = timestamp as int / 86_400;
        vstd::arithmetic::div_mod::lemma_fundamental_div_mod_converse(r as int, 28_800, 3 * q + 3, 0);
    }
    r
}

/// Calculates the funding fees of a trade held from `open_timestamp` to
/// `close_timestamp`: walking the funding instants from the first one after
/// the opening, each instant up to the closing charges the funding rate on
/// the trade's average notional value.
pub fn calc_final_funding_fees(
    open_timestamp: i64,
    close_timestamp: i64,
    average_notional_value: u128,
) -> (r: i128)
    requires
        valid_timestamp(open_timestamp as int),
        valid_timestamp(close_timestamp as int),
        average_notional_value <= max_notional(),
    ensures
        r == funding_fee_spec(
            open_timestamp as int,
            close_timestamp as int,
            average_notional_value as int,
        ),
        0 <= r <= max_funding_instants() * funding_fee_per_instant(average_notional_value as int),
{
    assert(MAX_PRICE == 1_000_000_000_000_000 && MAX_QUANTITY == 10_000_000_000_000);
    assert(FUNDING_FEE_8H_BPS == 1 && BASIS_POINTS == 10_000);
    assert(FUNDING_INTERVAL_SECONDS == 28_800);
    assert(MIN_TIMESTAMP == -8_334_601_315_200 && MAX_TIMESTAMP == 8_210_266_876_799);
    assert(max_notional() == 10_000_000_000_000_000_000_000_000_000);
    let per_instant: u128 = average_notional_value * (FUNDING_FEE_8H_BPS as u128)
        / (BASIS_POINTS as u128);
    assert(per_instant <= 1_000_000_000_000_000_000_000_000) by (nonlinear_arith)
        requires
            per_instant == average_notional_value * 1 / 10_000,
            average_notional_value <= 10_000_000_000_000_000_000_000_000_000,
    ;
    assert(0 <= funding_fee_per_instant(average_notional_value as int));
    if open_timestamp >= close_timestamp {
        assert(0 <= max_funding_instants() * funding_fee_per_instant(average_notional_value as int))
            by (nonlinear_arith)
            requires
                0 <= max_funding_instants(),
                0 <= funding_fee_per_instant(average_notional_value as int),
        ;
        return 0;
    }
    let first: i64 = get_next_funding_time(open_timestamp);
    let mut fees: u128 = 0;
    let mut current: i64 = first;
    let ghost mut count: int = 0;
    while current <= close_timestamp
        invariant
            FUNDING_INTERVAL_SECONDS == 28_800,
            MIN_TIMESTAMP == -8_334_601_315_200 && MAX_TIMESTAMP == 8_210_266_876_799,
            valid_timestamp(open_timestamp as int),
            valid_timestamp(close_timestamp as int),
            open_timestamp < first <= open_timestamp + 28_800,
            per_instant == funding_fee_per_instant(average_notional_value as int),
            per_instant <= 1_000_000_000_000_000_000_000_000,
            current == first + count * 28_800,
            0 <= count,
            count > 0 ==> current - 28_800 <= close_timestamp,
            count <= max_funding_instants(),
            fees == count * per_instant,
        decreases close_timestamp as int + 28_800 - current as int,
    {
        assert(count + 1 <= max_funding_instants());
        assert(fees + per_instant == (count + 1) * per_instant) by (nonlinear_arith)
            requires
                fees == count * per_instant,
        ;
        assert((count + 1) * per_instant <= 600_000_000 * 1_000_000_000_000_000_000_000_000)
            by (nonlinear_arith)
            requires
                count + 1 <= 600_000_000,
                per_instant <= 1_000_000_000_000_000_000_000_000,
        ;
        fees = fees + per_instant;
        current = current + 28_800;
        proof {
            count = count + 1;
        }
    }
    assert(count == funding_instants_spec(open_timestamp as int, close_timestamp as int));
    assert(fees <= max_funding_instants() * per_instant) by (nonlinear_arith)
        requires
            fees == count * per_instant,
            count <= max_funding_instants(),
            0 <= per_instant,
    ;
    assert(fees <= 600_000_000 * 1_000_000_000_000_000_000_000_000) by (nonlinear_arith)
        requires
            fees == count * per_instant,
            count <= 600_000_000,
            per_instant <= 1_000_000_000_000_000_000_000_000,
            0 <= per_instant,
    ;
    fees as i128
}

/// A trade that closes no later than it opened pays no funding fee.
pub proof fn lemma_funding_fee_zero_without_duration(open: int, close: int, average_notional: int)
    requires
        close <= open,
    ensures
        funding_fee_spec(open, close, average_notional) == 0,
{
}

/// With a fixed opening time and a non-negative average notional, the funding
/// fee never decreases as the trade is held longer.
pub proof fn lemma_funding_fee_monotonic_in_close(
    open: int,
    close: int,
    later_close: int,
    average_notional: int,
)
    requires
        close <= later_close,
        0 <= average_notional,
    ensures
        0 <= funding_fee_spec(open, close, average_notional),
        funding_fee_spec(open, close, average_notional) <= funding_fee_spec(
            open,
            later_close,
            average_notional,
        ),
{
    assert(FUNDING_INTERVAL_SECONDS == 28_800);
    assert(FUNDING_FEE_8H_BPS == 1 && BASIS_POINTS == 10_000);
    let first = next_funding_time_spec(open);
    let per = funding_fee_per_instant(average_notional);
    let n = funding_instants_spec(open, close);
    let m = funding_instants_spec(open, later_close);
    assert(0 <= per);
    if n > 0 {
        vstd::arithmetic::div_mod::lemma_div_is_ordered(close - first, later_close - first, 28_800);
        vstd::arithmetic::div_mod::lemma_div_pos_is_pos(close - first, 28_800);
    }
    assert(0 <= n <= m);
    vstd::arithmetic::mul::lemma_mul_inequality(n, m, per);
    vstd::arithmetic::mul::lemma_mul_nonnegative(n, per);
}

/// Return on equity is linear in leverage: multiplying the leverage by `k`
/// multiplies the ROE by `k`, up to the rounding of the result, and exactly
/// when the unscaled ROE is a whole number of units.
pub proof fn lemma_roe_linear_in_leverage(pnl: int, entry: int, quantity: int, leverage: int, k: int)
    requires
        1 <= entry,
        1 <= quantity,
        1 <= k,
    ensures
        k * roe_spec(pnl, entry, quantity, leverage) <= roe_spec(pnl, entry, quantity, k * leverage),
        roe_spec(pnl, entry, quantity, k * leverage) < k * roe_spec(pnl, entry, quantity, leverage)
            + k,
        (pnl * leverage * (100 * ROE_SCALE as int)) % (entry * quantity) == 0 ==> roe_spec(
            pnl,
            entry,
            quantity,
            k * leverage,
        ) == k * roe_spec(pnl, entry, quantity, leverage),
{
    let s = 100 * ROE_SCALE as int;
    let x = pnl * leverage * s;
    let m = entry * quantity;
    assert(m >= 1) by (nonlinear_arith)
        requires
            1 <= entry,
            1 <= quantity,
            m == entry * quantity,
    ;
    let q = x / m;
    let r = x % m;
    vstd::arithmetic::div_mod::lemma_fundamental_div_mod(x, m);
    vstd::arithmetic::div_mod::lemma_mod_bound(x, m);
    assert(pnl * (k * leverage) * s == k * x) by (nonlinear_arith)
        requires
            x == pnl * leverage * s,
    ;
    let kr = k * r;
    assert(0 <= kr < k * m) by (nonlinear_arith)
        requires
            0 <= r < m,
            1 <= k,
            kr == k * r,
    ;
    let t = kr / m;
    vstd::arithmetic::div_mod::lemma_fundamental_div_mod(kr, m);
    vstd::arithmetic::div_mod::lemma_mod_bound(kr, m);
    assert(0 <= t < k) by (nonlinear_arith)
        requires
            0 <= kr < k * m,
            kr == m * t + kr % m,
            0 <= kr % m < m,
            1 <= m,
    ;
    assert(k * x == (k * q + t) * m + kr % m) by (nonlinear_arith)
        requires
            x == m * q + r,
            kr == k * r,
            kr == m * t + kr % m,
    ;
    vstd::arithmetic::div_mod::lemma_fundamental_div_mod_converse(k * x, m, k * q + t, kr % m);
    if r == 0 {
        assert(kr == 0) by (nonlinear_arith)
            requires
                kr == k * r,
                r == 0,
        ;
        vstd::arithmetic::div_mod::lemma_fundamental_div_mod_converse(0, m, 0, 0);
    }
}

/// The funding instants are the multiples of the funding interval: the next
/// one after `ts` is the first multiple of eight hours strictly after it.
pub proof fn lemma_next_funding_time_closed_form(ts: int)
    ensures
        next_funding_time_spec(ts) == (ts / 28_800 + 1) * 28_800,
{
    assert(FUNDING_FEE_HOURS@ =~= seq![0u8, 8u8, 16u8]);
    assert(SECONDS_PER_DAY == 86_400 && SECONDS_PER_HOUR == 3_600);
    reveal_with_fuel(first_funding_hour_after, 4);
    let q = ts / 86_400;
    let d = ts % 86_400;
    vstd::arithmetic::div_mod::lemma_fundamental_div_mod(ts, 86_400);
    vstd::arithmetic::div_mod::lemma_mod_bound(ts, 86_400);
    let k = d / 28_800;
    let r = d % 28_800;
    vstd::arithmetic::div_mod::lemma_fundamental_div_mod(d, 28_800);
    vstd::arithmetic::div_mod::lemma_mod_bound(d, 28_800);
    vstd::arithmetic::div_mod::lemma_fundamental_div_mod_converse(ts, 28_800, 3 * q + k, r);
}

/// With a fixed closing time and a non-negative average notional, the funding
/// fee never decreases as the trade is opened earlier.
pub proof fn lemma_funding_fee_monotonic_in_open(
    open: int,
    earlier_open: int,
    close: int,
    average_notional: int,
)
    requires
        earlier_open <= open,
        0 <= average_notional,
    ensures
        funding_fee_spec(open, close, average_notional) <= funding_fee_spec(
            earlier_open,
            close,
            average_notional,
        ),
{
    assert(FUNDING_INTERVAL_SECONDS == 28_800);
    assert(FUNDING_FEE_8H_BPS == 1 && BASIS_POINTS == 10_000);
    lemma_next_funding_time_closed_form(open);
    lemma_next_funding_time_closed_form(earlier_open);
    vstd::arithmetic::div_mod::lemma_div_is_ordered(earlier_open, open, 28_800);
    let first = next_funding_time_spec(open);
    let earlier_first = next_funding_time_spec(earlier_open);
    assert(earlier_first <= first);
    let per = funding_fee_per_instant(average_notional);
    let n = funding_instants_spec(open, close);
    let m = funding_instants_spec(earlier_open, close);
    if n > 0 {
        vstd::arithmetic::div_mod::lemma_div_is_ordered(close - first, close - earlier_first, 28_800);
        vstd::arithmetic::div_mod::lemma_div_pos_is_pos(close - first, 28_800);
    }
    assert(0 <= n <= m);
    vstd::arithmetic::mul::lemma_mul_inequality(n, m, per);
}

/// For any positive entry price and leverage, the long liquidation price lies
/// below the entry price and the short one above it, at the same distance:
/// their sum is exactly twice the entry price.
pub proof fn lemma_liquidation_straddles_entry(entry: int, leverage: int)
    requires
        1 <= entry,
        1 <= leverage,
    ensures
        liquidation_price_spec(entry, leverage, TradeDirection::Long) < entry,
        entry < liquidation_price_spec(entry, leverage, TradeDirection::Short),
        liquidation_price_spec(entry, leverage, TradeDirection::Long) + liquidation_price_spec(
            entry,
            leverage,
            TradeDirection::Short,
        ) == 2 * entry,
{
    assert(BASIS_POINTS == 10_000 && MAINTENANCE_MARGIN_BPS == 100);
    let k = 10_000 * leverage;
    let c = 10_000 - 100;
    let a = entry * c;
    assert(entry * (k - c) == entry * k - a && entry * (k + c) == entry * k + a) by (nonlinear_arith)
        requires
            a == entry * c,
    ;
    assert(a >= 1 && k >= 1) by (nonlinear_arith)
        requires
            a == entry * c,
            c == 9_900,
            1 <= entry,
            k == 10_000 * leverage,
            1 <= leverage,
    ;
    lemma_floor_of_negated(a, k);
    let q = (a + k - 1) / k;
    vstd::arithmetic::div_mod::lemma_fundamental_div_mod(a + k - 1, k);
    vstd::arithmetic::div_mod::lemma_mod_bound(a + k - 1, k);
    vstd::arithmetic::div_mod::lemma_fundamental_div_mod(-a, k);
    vstd::arithmetic::div_mod::lemma_mod_bound(-a, k);
    let r1 = (-a) % k;
    let r2 = (a + k - 1) % k;
    assert(entry * k - a == k * (entry - q) + r1) by (nonlinear_arith)
        requires
            -a == k * (-a / k) + r1,
            -a / k == -q,
    ;
    vstd::arithmetic::div_mod::lemma_fundamental_div_mod_converse(entry * k - a, k, entry - q, r1);
    assert(entry * k + a + k - 1 == k * (entry + q) + r2) by (nonlinear_arith)
        requires
            a + k - 1 == k * q + r2,
    ;
    vstd::arithmetic::div_mod::lemma_fundamental_div_mod_converse(
        entry * k + a + k - 1,
        k,
        entry + q,
        r2,
    );
    assert(q >= 1) by (nonlinear_arith)
        requires
            a + k - 1 == k * q + r2,
            0 <= r2 < k,
            a >= 1,
    ;
}

} // verus!
