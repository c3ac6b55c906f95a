use vstd::prelude::*;

use crate::constants::{
    ACCEPTED_SYMBOLS, DEFAULT_LEVERAGE, DEFAULT_NOTIONAL_VALUE, DEFAULT_STOP_LOSS_PERCENTAGE,
    DEFAULT_TAKE_PROFIT_PERCENTAGE, MAX_PNL, MAX_PRICE, MAX_QUANTITY, PRICE_SCALE, QUANTITY_SCALE,
};
use crate::models::{
    direction_of, ActiveTrade, ClosedTrade, TradeDirection, TradeKind, TradingViewAlert,
};
use crate::api::StoreStep;
use crate::registry::{contains_id, contains_key, has_key, Registry, RegistryError};
use crate::ticker::{canonical_symbol, canonical_symbol_spec};
use crate::trade_helpers::{
    calc_final_execution_fees, calc_final_funding_fees, calc_liquidation_price, calc_pnl, calc_roe,
    execution_fee_spec, funding_fee_spec, liquidation_price_spec, max_funding_instants,
    funding_fee_per_instant, max_notional, pnl_spec, raw_pnl_spec, roe_spec, valid_timestamp,
};

verus! {

/// Why an alert could not be acted on.
#[derive(Debug, Clone, Copy, PartialEq, Eq, Structural)]
pub enum TradeError {
    /// the alert's pair is not among the accepted symbols.
    UnsupportedPair,
    /// the alert's price is zero or above the largest price handled.
    InvalidPrice,
    /// the default notional value buys less than 0.01 units at the alert's price.
    QuantityTooSmall,
    /// the position under the alert's key is in flight (being opened or closed).
    PositionInFlight,
    /// the id chosen for the new position is already taken.
    DuplicateId,
}

/// Quantity bought by the default notional value at `price`, in hundredths,
/// rounded to the nearest hundredth (halves away from zero).
pub open spec fn rounded_quantity_spec(price: int) -> int {
    let numerator = DEFAULT_NOTIONAL_VALUE as int * QUANTITY_SCALE as int * PRICE_SCALE as int;
    (2 * numerator + price) / (2 * price)
}

/// Take-profit price used when the alert gives none.
pub open spec fn default_take_profit_spec(entry: int, direction: TradeDirection) -> int {
    match direction {
        TradeDirection::Long => entry * (100 + DEFAULT_TAKE_PROFIT_PERCENTAGE) / 100,
        TradeDirection::Short => entry * (100 - DEFAULT_TAKE_PROFIT_PERCENTAGE) / 100,
    }
}

/// Stop-loss price used when the alert gives none.
pub open spec fn default_stop_loss_spec(entry: int, direction: TradeDirection) -> int {
    match direction {
        TradeDirection::Long => entry * (100 - DEFAULT_STOP_LOSS_PERCENTAGE) / 100,
        TradeDirection::Short => entry * (100 + DEFAULT_STOP_LOSS_PERCENTAGE) / 100,
    }
}

/// Whether the alert's price can open a position.
pub open spec fn alert_price_valid(price: int) -> bool {
    1 <= price <= MAX_PRICE
}

/// Whether trades may be opened on the (canonical) symbol.
pub open spec fn accepted_symbol(symbol: Seq<char>) -> bool {
    exists|i: int| 0 <= i < ACCEPTED_SYMBOLS@.len() && (#[trigger] ACCEPTED_SYMBOLS@[i])@ == symbol
}

/// Why the alert cannot open a position, checked in this order: its pair,
/// its price, the quantity its price buys; `None` when it can.
pub open spec fn open_error_spec(alert: TradingViewAlert) -> Option<TradeError> {
    if !accepted_symbol(canonical_symbol_spec(alert.pair@)) {
        Some(TradeError::UnsupportedPair)
    } else if !alert_price_valid(alert.price as int) {
        Some(TradeError::InvalidPrice)
    } else if rounded_quantity_spec(alert.price as int) == 0 {
        Some(TradeError::QuantityTooSmall)
    } else {
        None
    }
}

/// Returns whether trades may be opened on the (canonical) symbol.
pub fn is_accepted_symbol(symbol: &String) -> (r: bool)
    ensures
        r == accepted_symbol(symbol@),
{
    let mut i: usize = 0;
    while i < ACCEPTED_SYMBOLS.len()
        invariant
            0 <= i <= ACCEPTED_SYMBOLS@.len(),
            ACCEPTED_SYMBOLS@.len() == 4,
            forall|j: int| 0 <= j < i ==> (#[trigger] ACCEPTED_SYMBOLS@[j])@ != symbol@,
        decreases 4 - i,
    {
        let candidate: String = ACCEPTED_SYMBOLS[i].to_owned();
        if candidate == *symbol {
            return true;
        }
        i = i + 1;
    }
    false
}

/// `trade` is the position the alert opens with the id at time `now`.
pub open spec fn opened_trade_spec(alert: TradingViewAlert, id: u128, now: int, trade: ActiveTrade) -> bool {
    let direction = direction_of(alert.signal);
    &&& trade.id == id
    &&& trade.alert_name@ == alert.name@
    &&& trade.pair@ == canonical_symbol_spec(alert.pair@)
    &&& trade.direction == direction
    &&& trade.kind == TradeKind::Paper
    &&& trade.open_timestamp == now
    &&& trade.quantity == rounded_quantity_spec(alert.price as int)
    &&& trade.entry_price == alert.price
    &&& trade.leverage == DEFAULT_LEVERAGE
    &&& trade.liquidation_price == liquidation_price_spec(
        alert.price as int,
        DEFAULT_LEVERAGE.factor_spec(),
        direction,
    )
    &&& trade.take_profit == Some(
        match alert.take_profit {
            Some(price) => price as int,
            None => default_take_profit_spec(alert.price as int, direction),
        } as u64,
    )
    &&& trade.stop_loss == Some(
        match alert.stop_loss {
            Some(price) => price as int,
            None => default_stop_loss_spec(alert.price as int, direction),
        } as u64,
    )
}

/// Average of the entry-side and exit-side notional values, rounded down.
pub open spec fn average_notional_spec(quantity: int, entry: int, exit: int) -> int {
    (quantity * entry + quantity * exit) / 2
}

/// `closed` is the outcome of closing `trade` at `exit_price` at time `close`.
pub open spec fn closed_trade_spec(trade: ActiveTrade, exit_price: int, close: int, closed: ClosedTrade) -> bool {
    let q = trade.quantity as int;
    let e = trade.entry_price as int;
    &&& closed.id == trade.id
    &&& closed.alert_name@ == trade.alert_name@
    &&& closed.pair@ == trade.pair@
    &&& closed.direction == trade.direction
    &&& closed.kind == trade.kind
    &&& closed.quantity == trade.quantity
    &&& closed.entry_price == trade.entry_price
    &&& closed.exit_price == exit_price
    &&& closed.leverage == trade.leverage
    &&& closed.liquidation_price == trade.liquidation_price
    &&& closed.open_timestamp == trade.open_timestamp
    &&& closed.close_timestamp == close
    &&& closed.execution_fees == execution_fee_spec(q, e)
    &&& closed.funding_fees == funding_fee_spec(
        trade.open_timestamp as int,
        close,
        average_notional_spec(q, e, exit_price),
    )
    &&& closed.pnl == pnl_spec(
        e,
        exit_price,
        q,
        closed.execution_fees as int,
        closed.funding_fees as int,
        trade.direction,
    )
    &&& closed.roe == roe_spec(closed.pnl as int, e, q, trade.leverage.factor_spec())
}

/// `price * percent / 100`, rounded down.
fn scale_percent(price: u64, percent: u64) -> (r: u64)
    requires
        price <= MAX_PRICE,
        percent <= 200,
    ensures
        r == price * percent / 100,
{
    assert(MAX_PRICE == 1_000_000_000_000_000);
    assert(price * percent <= 200 * MAX_PRICE) by (nonlinear_arith)
        requires
            price <= MAX_PRICE,
            percent <= 200,
    ;
    ((price as u128) * (percent as u128) / 100) as u64
}

/// Opens a position for the alert with the given id at time `now`: the
/// default notional value at the alert's price, rounded to 0.01 units, with the
/// default leverage, a liquidation price frozen now, and the alert's take
/// profit and stop loss or the defaults.
pub fn open_position(alert: &TradingViewAlert, id: u128, now: i64) -> (r: Result<ActiveTrade, TradeError>)
    requires
        valid_timestamp(now as int),
    ensures
        match r {
            Ok(trade) => {
                &&& open_error_spec(*alert) is None
                &&& opened_trade_spec(*alert, id, now as int, trade)
                &&& trade.wf()
            },
            Err(e) => open_error_spec(*alert) == Some(e),
        },
{
    assert(PRICE_SCALE == 100_000_000 && QUANTITY_SCALE == 100 && DEFAULT_NOTIONAL_VALUE == 1_000);
    assert(MAX_PRICE == 1_000_000_000_000_000 && MAX_QUANTITY == 10_000_000_000_000);
    assert(DEFAULT_TAKE_PROFIT_PERCENTAGE == 5 && DEFAULT_STOP_LOSS_PERCENTAGE == 2);
    let pair = canonical_symbol(alert.pair.as_str());
    if !is_accepted_symbol(&pair) {
        return Err(TradeError::UnsupportedPair);
    }
    let price = alert.price;
    if price == 0 || price > MAX_PRICE {
        return Err(TradeError::InvalidPrice);
    }
    assert((DEFAULT_NOTIONAL_VALUE as u128) * (QUANTITY_SCALE as u128) * (PRICE_SCALE as u128)
        == 10_000_000_000_000) by (nonlinear_arith)
        requires
            PRICE_SCALE == 100_000_000 && QUANTITY_SCALE == 100 && DEFAULT_NOTIONAL_VALUE == 1_000,
    ;
    let numerator: u128 = (DEFAULT_NOTIONAL_VALUE as u128) * (QUANTITY_SCALE as u128) * (
    PRICE_SCALE as u128);
    let quantity: u128 = (2 * numerator + price as u128) / (2 * price as u128);
    assert(quantity <= 10_000_000_000_000) by (nonlinear_arith)
        requires
            quantity == (20_000_000_000_000 + price) / (2 * price),
            1 <= price,
    ;
    if quantity == 0 {
        return Err(TradeError::QuantityTooSmall);
    }
    let direction: TradeDirection = TradeDirection::from(alert.signal);
    let leverage = DEFAULT_LEVERAGE;
    let liquidation_price = calc_liquidation_price(price, leverage.factor(), direction);
    let take_profit: u64 = match alert.take_profit {
        Some(p) => p,
        None => match direction {
            TradeDirection::Long => scale_percent(price, 100 + DEFAULT_TAKE_PROFIT_PERCENTAGE),
            TradeDirection::Short => scale_percent(price, 100 - DEFAULT_TAKE_PROFIT_PERCENTAGE),
        },
    };
    let stop_loss: u64 = match alert.stop_loss {
        Some(p) => p,
        None => match direction {
            TradeDirection::Long => scale_percent(price, 100 - DEFAULT_STOP_LOSS_PERCENTAGE),
            TradeDirection::Short => scale_percent(price, 100 + DEFAULT_STOP_LOSS_PERCENTAGE),
        },
    };
    Ok(
        ActiveTrade {
            id,
            alert_name: alert.name.clone(),
            pair,
            direction,
            kind: TradeKind::Paper,
            open_timestamp: now,
            quantity: quantity as u64,
            entry_price: price,
            leverage,
            liquidation_price,
            take_profit: Some(take_profit),
            stop_loss: Some(stop_loss),
        },
    )
}

/// Closes an active paper trade at `exit_price` at time `close_timestamp`:
/// charges the execution fee and the funding fee on the average of the entry
/// and exit notional values, and derives the PnL and ROE.
pub fn close_paper_trade(trade: &ActiveTrade, exit_price: u64, close_timestamp: i64) -> (r: ClosedTrade)
    requires
        trade.wf(),
        exit_price <= MAX_PRICE,
        valid_timestamp(close_timestamp as int),
    ensures
        closed_trade_spec(*trade, exit_price as int, close_timestamp as int, r),
{
    assert(MAX_PRICE == 1_000_000_000_000_000 && MAX_QUANTITY == 10_000_000_000_000);
    assert(MAX_PNL == 1_000_000_000_000_000_000_000_000_000_000_000);
    let quantity = trade.quantity;
    let entry_price = trade.entry_price;
    let execution_fees = calc_final_execution_fees(quantity, entry_price);
    assert((quantity as int) * (entry_price as int) <= max_notional() && (quantity as int) * (
    exit_price as int) <= max_notional()) by (nonlinear_arith)
        requires
            quantity <= MAX_QUANTITY,
            entry_price <= MAX_PRICE,
            exit_price <= MAX_PRICE,
            max_notional() == MAX_PRICE * MAX_QUANTITY,
    ;
    let entry_notional: u128 = (quantity as u128) * (entry_price as u128);
    let exit_notional: u128 = (quantity as u128) * (exit_price as u128);
    let average_notional: u128 = (entry_notional + exit_notional) / 2;
    let funding_fees = calc_final_funding_fees(
        trade.open_timestamp,
        close_timestamp,
        average_notional,
    );
    let ghost per_instant = funding_fee_per_instant(average_notional as int);
    assert(per_instant <= 1_000_000_000_000_000_000_000_000) by (nonlinear_arith)
        requires
            per_instant == average_notional * crate::constants::FUNDING_FEE_8H_BPS as int / (
            crate::constants::BASIS_POINTS as int),
            crate::constants::FUNDING_FEE_8H_BPS == 1,
            crate::constants::BASIS_POINTS == 10_000,
            average_notional <= 10_000_000_000_000_000_000_000_000_000,
    ;
    assert(max_funding_instants() <= 600_000_000);
    assert(funding_fees <= 600_000_000_000_000_000_000_000_000_000_000) by (nonlinear_arith)
        requires
            0 <= funding_fees <= max_funding_instants() * per_instant,
            max_funding_instants() <= 600_000_000,
            0 <= per_instant <= 1_000_000_000_000_000_000_000_000,
    ;
    let pnl = calc_pnl(
        entry_price,
        exit_price,
        quantity,
        execution_fees,
        funding_fees,
        trade.direction,
    );
    proof {
        lemma_raw_pnl_bound(entry_price, exit_price, quantity, trade.direction);
    }
    let roe = calc_roe(pnl, entry_price, quantity, trade.leverage.factor());
    ClosedTrade {
        id: trade.id,
        alert_name: trade.alert_name.clone(),
        pair: trade.pair.clone(),
        direction: trade.direction,
        kind: trade.kind,
        quantity,
        entry_price,
        exit_price,
        leverage: trade.leverage,
        liquidation_price: trade.liquidation_price,
        open_timestamp: trade.open_timestamp,
        close_timestamp,
        pnl,
        roe,
        execution_fees,
        funding_fees,
    }
}

/// The price movement profit of a trade within bounds is at most its largest notional.
proof fn lemma_raw_pnl_bound(entry: u64, exit: u64, quantity: u64, direction: TradeDirection)
    requires
        entry <= MAX_PRICE,
        exit <= MAX_PRICE,
        quantity <= MAX_QUANTITY,
    ensures
        -MAX_PRICE * MAX_QUANTITY <= raw_pnl_spec(entry as int, exit as int, quantity as int, direction)
            <= MAX_PRICE * MAX_QUANTITY,
{
    let d: int = match direction {
        TradeDirection::Long => exit as int - entry as int,
        TradeDirection::Short => entry as int - exit as int,
    };
    assert(-MAX_PRICE * MAX_QUANTITY <= d * quantity <= MAX_PRICE * MAX_QUANTITY) by (nonlinear_arith)
        requires
            -MAX_PRICE <= d <= MAX_PRICE,
            0 <= quantity <= MAX_QUANTITY,
    ;
}

/// Closing a position at its entry price at the moment it was opened loses
/// exactly the execution fee: no price movement and no funding fee.
pub proof fn lemma_round_trip_costs_execution_fee(trade: ActiveTrade, closed: ClosedTrade)
    requires
        closed_trade_spec(trade, trade.entry_price as int, trade.open_timestamp as int, closed),
    ensures
        closed.funding_fees == 0,
        closed.pnl == -execution_fee_spec(trade.quantity as int, trade.entry_price as int),
{
}

/// What an alert asks of the registry.
#[derive(Debug)]
pub enum AlertPlan {
    /// an open position with the alert's key already has the signal's direction.
    Ignore,
    /// no open position has the alert's key: open this one (it is reserved in
    /// the registry, in flight, until committed or aborted).
    Open(ActiveTrade),
    /// the open position with the alert's key has the other direction: close
    /// it (its closure is now in flight) and open the new one.
    Reverse { closed: ClosedTrade, opened: ActiveTrade },
}

/// Whether position `i` holds the alert's idempotency key (alert name,
/// canonical pair, paper kind).
pub open spec fn holds_alert_key(registry: &Registry, i: int, alert: TradingViewAlert) -> bool {
    &&& 0 <= i < registry.positions().len()
    &&& has_key(
        registry.positions()[i],
        alert.name@,
        canonical_symbol_spec(alert.pair@),
        TradeKind::Paper,
    )
}

/// The outcome `r` of planning `alert` at time `now` with new id `id`,
/// taking the registry from `before` to `after`.
pub open spec fn plan_outcome(
    before: &Registry,
    after: &Registry,
    alert: TradingViewAlert,
    now: int,
    id: u128,
    r: Result<AlertPlan, TradeError>,
) -> bool {
    match r {
        Ok(AlertPlan::Ignore) => {
            &&& exists|i: int|
                holds_alert_key(before, i, alert) && (#[trigger] before.positions()[i]).direction
                    == direction_of(alert.signal)
            &&& after.positions() == before.positions()
            &&& after.in_flight() == before.in_flight()
        },
        Ok(AlertPlan::Open(trade)) => {
            &&& !contains_key(
                before.positions(),
                alert.name@,
                canonical_symbol_spec(alert.pair@),
                TradeKind::Paper,
            )
            &&& !contains_id(before.positions(), id)
            &&& open_error_spec(alert) is None
            &&& opened_trade_spec(alert, id, now, trade)
            &&& trade.wf()
            &&& after.positions() == before.positions().push(trade)
            &&& after.in_flight() == before.in_flight().push(true)
        },
        Ok(AlertPlan::Reverse { closed, opened }) => {
            &&& exists|i: int|
                holds_alert_key(before, i, alert) && (#[trigger] before.positions()[i]).direction
                    != direction_of(alert.signal) && !before.in_flight()[i] && after.in_flight()
                    == before.in_flight().update(i, true) && closed_trade_spec(
                    before.positions()[i],
                    alert.price as int,
                    now,
                    closed,
                )
            &&& !contains_id(before.positions(), id)
            &&& open_error_spec(alert) is None
            &&& opened_trade_spec(alert, id, now, opened)
            &&& opened.wf()
            &&& after.positions() == before.positions()
        },
        Err(e) => {
            &&& after.positions() == before.positions()
            &&& after.in_flight() == before.in_flight()
            &&& !exists|i: int|
                holds_alert_key(before, i, alert) && (#[trigger] before.positions()[i]).direction
                    == direction_of(alert.signal)
            &&& match open_error_spec(alert) {
                Some(expected) => e == expected,
                None => (e == TradeError::DuplicateId && contains_id(before.positions(), id)) || (e
                    == TradeError::PositionInFlight && exists|i: int|
                    holds_alert_key(before, i, alert) && #[trigger] before.in_flight()[i]),
            }
        },
    }
}

/// Decides what an alert does, at time `now`, giving a new position the id
/// `new_id`. With no open position under the alert's key, a new one is opened;
/// with one in the signal's direction the alert is ignored; with one in the
/// other direction, that one is marked as being closed at the alert's price
/// and a new one is opened. A new position is reserved in the registry, in
/// flight, so that its key is taken at once; nothing else changes until
/// `commit_paper_trade` or `abort_paper_trade`.
pub fn plan_paper_trade(registry: &mut Registry, alert: &TradingViewAlert, now: i64, new_id: u128) -> (r:
    Result<AlertPlan, TradeError>)
    requires
        old(registry).wf(),
        valid_timestamp(now as int),
    ensures
        final(registry).wf(),
        plan_outcome(old(registry), final(registry), *alert, now as int, new_id, r),
{
    let pair = canonical_symbol(alert.pair.as_str());
    let direction = TradeDirection::from(alert.signal);
    match registry.find_by_idempotency_key(&alert.name, &pair, TradeKind::Paper) {
        None => match open_position(alert, new_id, now) {
            Ok(trade) => {
                let reserved = trade.duplicate();
                match registry.reserve(reserved) {
                    Ok(()) => Ok(AlertPlan::Open(trade)),
                    Err(_) => Err(TradeError::DuplicateId),
                }
            },
            Err(e) => Err(e),
        },
        Some(existing) => {
            let ghost k = choose|i: int|
                0 <= i < registry.positions().len() && #[trigger] registry.positions()[i]
                    == existing && has_key(existing, alert.name@, pair@, TradeKind::Paper);
            assert(holds_alert_key(registry, k, *alert));
            if existing.direction == direction {
                assert(old(registry).positions()[k].direction == direction_of(alert.signal));
                return Ok(AlertPlan::Ignore);
            }
            proof {
                assert forall|i: int|
                    holds_alert_key(old(registry), i, *alert) implies (#[trigger] old(registry).positions()[i]).direction != direction_of(alert.signal) by {
                    crate::registry::lemma_one_position_per_key(old(registry), i, k);
                }
            }
            let opened = match open_position(alert, new_id, now) {
                Ok(trade) => trade,
                Err(e) => {
                    return Err(e);
                },
            };
            if registry.contains_id(new_id) {
                return Err(TradeError::DuplicateId);
            }
            match registry.claim(existing.id) {
                Ok(trade) => {
                    proof {
                        let j = choose|j: int|
                            0 <= j < old(registry).positions().len() && #[trigger] old(registry).positions()[j] == trade && trade.id == existing.id && !old(registry).in_flight()[j] && final(registry).in_flight() == old(registry).in_flight().update(j, true);
                        if j != k {
                            if j < k {
                                assert(old(registry).positions()[j].id != old(registry).positions()[k].id);
                            } else {
                                assert(old(registry).positions()[k].id != old(registry).positions()[j].id);
                            }
                        }
                        assert(old(registry).positions()[j].wf());
                    }
                    let closed = close_paper_trade(&trade, alert.price, now);
                    Ok(AlertPlan::Reverse { closed, opened })
                },
                Err(_) => {
                    proof {
                        assert(crate::registry::contains_id(old(registry).positions(), existing.id));
                        let j = choose|j: int|
                            0 <= j < old(registry).positions().len() && (#[trigger] old(registry).positions()[j]).id == existing.id && old(registry).in_flight()[j];
                        if j != k {
                            if j < k {
                                assert(old(registry).positions()[j].id != old(registry).positions()[k].id);
                            } else {
                                assert(old(registry).positions()[k].id != old(registry).positions()[j].id);
                            }
                        }
                        assert(holds_alert_key(old(registry), j, *alert));
                    }
                    Err(TradeError::PositionInFlight)
                },
            }
        },
    }
}

/// The bounds a plan's new position respects.
pub open spec fn plan_wf(plan: AlertPlan) -> bool {
    match plan {
        AlertPlan::Ignore => true,
        AlertPlan::Open(trade) => trade.wf(),
        AlertPlan::Reverse { closed, opened } => opened.wf(),
    }
}

/// The registry after `commit_paper_trade` applied `plan` to `before`, with result `r`.
pub open spec fn commit_outcome(before: &Registry, after: &Registry, plan: AlertPlan, r: Result<
    (),
    RegistryError,
>) -> bool {
    match plan {
        AlertPlan::Ignore => r is Ok && after.positions() == before.positions() && after.in_flight()
            == before.in_flight(),
        AlertPlan::Open(trade) => release_outcome(before, after, trade.id, r),
        AlertPlan::Reverse { closed, opened } => match r {
            Ok(()) => exists|i: int|
                0 <= i < before.positions().len() && (#[trigger] before.positions()[i]).id
                    == closed.id && after.positions() == before.positions().remove(i).push(opened)
                    && after.in_flight() == before.in_flight().remove(i).push(false),
            Err(e) => if !contains_id(before.positions(), closed.id) {
                e == RegistryError::NotFound && after.positions() == before.positions()
                    && after.in_flight() == before.in_flight()
            } else {
                exists|i: int|
                    0 <= i < before.positions().len() && (#[trigger] before.positions()[i]).id
                        == closed.id && after.positions() == before.positions().remove(i)
                        && after.in_flight() == before.in_flight().remove(i) && (contains_key(
                        before.positions().remove(i),
                        opened.alert_name@,
                        opened.pair@,
                        opened.kind,
                    ) || contains_id(before.positions().remove(i), opened.id))
            },
        },
    }
}

/// The registry after clearing the in-flight mark of the position with `id`,
/// with result `r`: cleared when that position is in flight; `NotFound` or
/// `NotInFlight`, with nothing changed, otherwise.
pub open spec fn release_outcome(before: &Registry, after: &Registry, id: u128, r: Result<
    (),
    RegistryError,
>) -> bool {
    &&& after.positions() == before.positions()
    &&& match r {
        Ok(()) => exists|i: int|
            0 <= i < before.positions().len() && (#[trigger] before.positions()[i]).id == id
                && before.in_flight()[i] && after.in_flight() == before.in_flight().update(
                i,
                false,
            ),
        Err(e) => {
            &&& after.in_flight() == before.in_flight()
            &&& (e == RegistryError::NotFound) == !contains_id(before.positions(), id)
            &&& e == RegistryError::NotFound || (e == RegistryError::NotInFlight && exists|i: int|
                0 <= i < before.positions().len() && (#[trigger] before.positions()[i]).id == id
                    && !before.in_flight()[i])
        },
    }
}

/// The registry after removing the position with `id`, with result `r`:
/// removed when present; `NotFound`, with nothing changed, otherwise.
pub open spec fn removal_outcome(before: &Registry, after: &Registry, id: u128, r: Result<
    (),
    RegistryError,
>) -> bool {
    match r {
        Ok(()) => exists|i: int|
            0 <= i < before.positions().len() && (#[trigger] before.positions()[i]).id == id
                && after.positions() == before.positions().remove(i) && after.in_flight()
                == before.in_flight().remove(i),
        Err(e) => e == RegistryError::NotFound && !contains_id(before.positions(), id)
            && after.positions() == before.positions() && after.in_flight() == before.in_flight(),
    }
}

/// The registry after `abort_paper_trade` withdrew `plan` from `before`, with result `r`.
pub open spec fn abort_outcome(before: &Registry, after: &Registry, plan: AlertPlan, r: Result<
    (),
    RegistryError,
>) -> bool {
    match plan {
        AlertPlan::Ignore => r is Ok && after.positions() == before.positions() && after.in_flight()
            == before.in_flight(),
        AlertPlan::Open(trade) => removal_outcome(before, after, trade.id, r),
        AlertPlan::Reverse { closed, opened } => release_outcome(before, after, closed.id, r),
    }
}

/// Applies a plan to the registry once its records are stored: a reserved
/// position is no longer in flight, and a reversed one is removed before its
/// successor is added.
pub fn commit_paper_trade(registry: &mut Registry, plan: AlertPlan) -> (r: Result<(), RegistryError>)
    requires
        old(registry).wf(),
        plan_wf(plan),
    ensures
        final(registry).wf(),
        commit_outcome(old(registry), final(registry), plan, r),
{
    match plan {
        AlertPlan::Ignore => Ok(()),
        AlertPlan::Open(trade) => registry.release(trade.id),
        AlertPlan::Reverse { closed, opened } => {
            match registry.remove(closed.id) {
                Ok(_) => {},
                Err(e) => {
                    return Err(e);
                },
            }
            let ghost removed = *registry;
            let r = registry.insert(opened);
            proof {
                let i = choose|i: int|
                    0 <= i < old(registry).positions().len() && #[trigger] old(registry).positions()[i].id == closed.id
                        && removed.positions() == old(registry).positions().remove(i)
                        && removed.in_flight() == old(registry).in_flight().remove(i);
                assert(old(registry).positions()[i].id == closed.id);
            }
            r
        },
    }
}

/// Withdraws a plan whose records could not be stored: a reserved position
/// is removed, and a position that was being reversed is no longer in flight.
pub fn abort_paper_trade(registry: &mut Registry, plan: &AlertPlan) -> (r: Result<(), RegistryError>)
    requires
        old(registry).wf(),
    ensures
        final(registry).wf(),
        abort_outcome(old(registry), final(registry), *plan, r),
{
    match plan {
        AlertPlan::Ignore => Ok(()),
        AlertPlan::Open(trade) => match registry.remove(trade.id) {
            Ok(_) => Ok(()),
            Err(e) => Err(e),
        },
        AlertPlan::Reverse { closed, opened } => registry.release(closed.id),
    }
}

/// Brings the registry in line with the store after storing a plan failed at
/// `step`. When a reversal failed only to add its new position, the old one
/// is already closed in the store: it leaves the registry. Otherwise nothing
/// of the plan reached the store, and the plan is withdrawn.
pub fn fail_paper_trade(registry: &mut Registry, plan: &AlertPlan, step: StoreStep) -> (r: Result<
    (),
    RegistryError,
>)
    requires
        old(registry).wf(),
    ensures
        final(registry).wf(),
        match (*plan, step) {
            (AlertPlan::Reverse { closed, opened }, StoreStep::AddActiveTrade) => removal_outcome(
                old(registry),
                final(registry),
                closed.id,
                r,
            ),
            _ => abort_outcome(old(registry), final(registry), *plan, r),
        },
{
    match (plan, step) {
        (AlertPlan::Reverse { closed, opened }, StoreStep::AddActiveTrade) => match registry.remove(
            closed.id,
        ) {
            Ok(_) => Ok(()),
            Err(e) => Err(e),
        },
        _ => abort_paper_trade(registry, plan),
    }
}

/// Once an alert has been planned to open a position, a later alert under the
/// same key cannot also be planned to open one, whatever was stored meanwhile:
/// the planned position holds the key until it is committed or aborted.
pub proof fn lemma_no_second_open_for_a_key(
    before: &Registry,
    middle: &Registry,
    after: &Registry,
    first: TradingViewAlert,
    second: TradingViewAlert,
    now: int,
    later: int,
    id: u128,
    other_id: u128,
    opened: ActiveTrade,
    also_opened: ActiveTrade,
)
    requires
        plan_outcome(before, middle, first, now, id, Ok(AlertPlan::Open(opened))),
        second.name@ == first.name@,
        canonical_symbol_spec(second.pair@) == canonical_symbol_spec(first.pair@),
    ensures
        !plan_outcome(middle, after, second, later, other_id, Ok(AlertPlan::Open(also_opened))),
{
    let last = middle.positions().len() - 1;
    assert(middle.positions()[last] == opened);
    assert(has_key(
        middle.positions()[last],
        second.name@,
        canonical_symbol_spec(second.pair@),
        TradeKind::Paper,
    ));
}

} // verus!
