use vstd::prelude::*;

use crate::models::{ActiveTrade, TradeDirection};

verus! {

/// Why a position is closed by a price tick, in order of precedence.
#[derive(Debug, Clone, Copy, PartialEq, Eq, Structural)]
pub enum CloseReason {
    Liquidation,
    StopLoss,
    TakeProfit,
}

/// Whether `price` reaches the position's liquidation price.
pub open spec fn liquidation_hit(trade: ActiveTrade, price: int) -> bool {
    match trade.direction {
        TradeDirection::Long => price <= trade.liquidation_price,
        TradeDirection::Short => price >= trade.liquidation_price,
    }
}

/// Whether `price` reaches the position's stop loss, if it has one.
pub open spec fn stop_loss_hit(trade: ActiveTrade, price: int) -> bool {
    match trade.stop_loss {
        Some(stop_loss) => match trade.direction {
            TradeDirection::Long => price <= stop_loss,
            TradeDirection::Short => price >= stop_loss,
        },
        None => false,
    }
}

/// Whether `price` reaches the position's take profit, if it has one.
pub open spec fn take_profit_hit(trade: ActiveTrade, price: int) -> bool {
    match trade.take_profit {
        Some(take_profit) => match trade.direction {
            TradeDirection::Long => price >= take_profit,
            TradeDirection::Short => price <= take_profit,
        },
        None => false,
    }
}

/// The reason a position closes at `price`: liquidation before stop loss
/// before take profit, or none.
pub open spec fn trigger_spec(trade: ActiveTrade, price: int) -> Option<CloseReason> {
    if liquidation_hit(trade, price) {
        Some(CloseReason::Liquidation)
    } else if stop_loss_hit(trade, price) {
        Some(CloseReason::StopLoss)
    } else if take_profit_hit(trade, price) {
        Some(CloseReason::TakeProfit)
    } else {
        None
    }
}

/// Decides whether a tick at `price` closes the trade, and why.
pub fn trigger_reason(trade: &ActiveTrade, price: u64) -> (r: Option<CloseReason>)
    ensures
        r == trigger_spec(*trade, price as int),
{
    let liquidated = match trade.direction {
        TradeDirection::Long => price <= trade.liquidation_price,
        TradeDirection::Short => price >= trade.liquidation_price,
    };
    if liquidated {
        return Some(CloseReason::Liquidation);
    }
    let stopped = match trade.stop_loss {
        Some(stop_loss) => match trade.direction {
            TradeDirection::Long => price <= stop_loss,
            TradeDirection::Short => price >= stop_loss,
        },
        None => false,
    };
    if stopped {
        return Some(CloseReason::StopLoss);
    }
    let profited = match trade.take_profit {
        Some(take_profit) => match trade.direction {
            TradeDirection::Long => price >= take_profit,
            TradeDirection::Short => price <= take_profit,
        },
        None => false,
    };
    if profited {
        Some(CloseReason::TakeProfit)
    } else {
        None
    }
}

/// Whether a tick at `price` closes the trade.
pub fn is_trigger_hit(trade: &ActiveTrade, price: u64) -> (r: bool)
    ensures
        r == trigger_spec(*trade, price as int) is Some,
{
    trigger_reason(trade, price).is_some()
}

/// A price at or beyond the liquidation price always closes the position, and
/// liquidation wins over a stop loss or take profit reached at the same time.
pub proof fn lemma_liquidation_takes_precedence(trade: ActiveTrade, price: int)
    requires
        liquidation_hit(trade, price),
    ensures
        trigger_spec(trade, price) == Some(CloseReason::Liquidation),
{
}

/// A stop loss wins over a take profit reached at the same time.
pub proof fn lemma_stop_loss_before_take_profit(trade: ActiveTrade, price: int)
    requires
        !liquidation_hit(trade, price),
        stop_loss_hit(trade, price),
    ensures
        trigger_spec(trade, price) == Some(CloseReason::StopLoss),
{
}

} // verus!
