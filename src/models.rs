use vstd::prelude::*;

use crate::constants::{MAX_PRICE, MAX_QUANTITY};
use crate::trade_helpers::valid_timestamp;

verus! {

/// A buy or sell signal carried by an alert.
#[derive(Debug, Clone, Copy, PartialEq, Eq, Structural)]
pub enum TradeSignal {
    Buy,
    Sell,
}

/// Whether a trade is simulated (paper) or placed on an exchange (live).
#[derive(Debug, Clone, Copy, PartialEq, Eq, Structural)]
pub enum TradeKind {
    Paper,
    Live,
}

/// The direction of a position.
#[derive(Debug, Clone, Copy, PartialEq, Eq, Structural)]
pub enum TradeDirection {
    Long,
    Short,
}

/// Whether a trade is still open or has been closed.
#[derive(Debug, Clone, Copy, PartialEq, Eq, Structural)]
pub enum TradeStatus {
    Active,
    Closed,
}

/// The leverage a trade is opened with.
#[derive(Debug, Clone, Copy, PartialEq, Eq, Structural)]
pub enum TradeLeverage {
    One,
    Two,
    Three,
    Five,
    Ten,
}

/// The direction a signal resolves to: a buy opens a long, a sell a short.
pub open spec fn direction_of(signal: TradeSignal) -> TradeDirection {
    match signal {
        TradeSignal::Buy => TradeDirection::Long,
        TradeSignal::Sell => TradeDirection::Short,
    }
}

impl From<TradeSignal> for TradeDirection {
    /// Converts an alert's signal into the direction of the position it asks for.
    fn from(signal: TradeSignal) -> (r: TradeDirection)
        ensures
            r == direction_of(signal),
    {
        match signal {
            TradeSignal::Buy => TradeDirection::Long,
            TradeSignal::Sell => TradeDirection::Short,
        }
    }
}

impl vstd::std_specs::convert::FromSpecImpl<TradeSignal> for TradeDirection {
    open spec fn obeys_from_spec() -> bool {
        true
    }

    open spec fn from_spec(signal: TradeSignal) -> TradeDirection {
        direction_of(signal)
    }
}

impl TradeLeverage {
    /// The multiplier this leverage stands for.
    pub open spec fn factor_spec(self) -> int {
        match self {
            TradeLeverage::One => 1,
            TradeLeverage::Two => 2,
            TradeLeverage::Three => 3,
            TradeLeverage::Five => 5,
            TradeLeverage::Ten => 10,
        }
    }

    /// Returns the multiplier this leverage stands for.
    pub fn factor(&self) -> (r: u64)
        ensures
            r == self.factor_spec(),
            1 <= r <= crate::constants::MAX_LEVERAGE,
    {
        match self {
            TradeLeverage::One => 1,
            TradeLeverage::Two => 2,
            TradeLeverage::Three => 3,
            TradeLeverage::Five => 5,
            TradeLeverage::Ten => 10,
        }
    }
}

/// An open position, created when an alert opens a trade.
///
/// Prices carry eight decimal places, quantities two; timestamps are seconds
/// since the Unix epoch; `id` holds the 12-byte database identifier.
#[derive(Debug)]
pub struct ActiveTrade {
    pub id: u128,
    /// the name of the alert that opened the trade.
    pub alert_name: String,
    /// the pair traded, in canonical form (e.g. `SOLUSDT`).
    pub pair: String,
    pub direction: TradeDirection,
    pub kind: TradeKind,
    pub open_timestamp: i64,
    pub quantity: u64,
    pub entry_price: u64,
    pub leverage: TradeLeverage,
    /// frozen at open time.
    pub liquidation_price: u64,
    pub take_profit: Option<u64>,
    pub stop_loss: Option<u64>,
}

impl ActiveTrade {
    /// The bounds every open position respects.
    pub open spec fn wf(&self) -> bool {
        &&& 1 <= self.quantity <= MAX_QUANTITY
        &&& 1 <= self.entry_price <= MAX_PRICE
        &&& valid_timestamp(self.open_timestamp as int)
    }

    /// Returns a copy of this trade.
    pub fn duplicate(&self) -> (r: ActiveTrade)
        ensures
            r == *self,
    {
        ActiveTrade {
            id: self.id,
            alert_name: self.alert_name.clone(),
            pair: self.pair.clone(),
            direction: self.direction,
            kind: self.kind,
            open_timestamp: self.open_timestamp,
            quantity: self.quantity,
            entry_price: self.entry_price,
            leverage: self.leverage,
            liquidation_price: self.liquidation_price,
            take_profit: self.take_profit,
            stop_loss: self.stop_loss,
        }
    }
}

/// A position that has been closed, with its realized outcome.
///
/// `pnl`, `execution_fees` and `funding_fees` are amounts with ten decimal
/// places; `roe` is in hundredths of a percent.
#[derive(Debug)]
pub struct ClosedTrade {
    pub id: u128,
    pub alert_name: String,
    pub pair: String,
    pub direction: TradeDirection,
    pub kind: TradeKind,
    pub quantity: u64,
    pub entry_price: u64,
    pub exit_price: u64,
    pub leverage: TradeLeverage,
    pub liquidation_price: u64,
    pub open_timestamp: i64,
    pub close_timestamp: i64,
    pub pnl: i128,
    pub roe: i128,
    pub execution_fees: i128,
    pub funding_fees: i128,
}

/// An authenticated alert asking to open (or flip) a position.
#[derive(Debug)]
pub struct TradingViewAlert {
    pub name: String,
    pub signal: TradeSignal,
    pub pair: String,
    pub price: u64,
    pub take_profit: Option<u64>,
    pub stop_loss: Option<u64>,
    pub secret: String,
}

/// The response the server sends back to a client.
#[derive(Debug)]
pub struct ApiResponse<T> {
    /// the status code and its message, e.g. `200 OK`.
    pub status: &'static str,
    pub message: String,
    pub data: Option<T>,
}

/// Commands for the feed writer task, to subscribe to or unsubscribe from a ticker.
#[derive(Debug)]
pub enum WsCommand {
    Subscribe(String),
    Unsubscribe(String),
}

/// A ticker update from the Coinbase feed, with its fields as received.
#[derive(Debug)]
pub struct CoinbaseTickerUpdate {
    pub update_type: String,
    pub sequence: Option<u64>,
    pub product_id: String,
    pub price: Option<String>,
    pub open_24h: Option<String>,
    pub volume_24h: Option<String>,
    pub low_24h: Option<String>,
    pub high_24h: Option<String>,
    pub volume_30d: Option<String>,
    pub best_bid: Option<String>,
    pub best_bid_size: Option<String>,
    pub best_ask: Option<String>,
    pub best_ask_size: Option<String>,
    pub side: Option<String>,
    pub time: Option<String>,
    pub trade_id: Option<u64>,
    pub last_size: Option<String>,
}

/// One normalized price observation.
#[derive(Debug)]
pub struct PriceTick {
    /// canonical symbol, e.g. `BTCUSD`.
    pub symbol: String,
    /// positive price with eight decimal places.
    pub price: u64,
    pub observed_at: i64,
}

} // verus!
