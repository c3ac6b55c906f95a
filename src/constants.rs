use vstd::prelude::*;

use crate::models::TradeLeverage;

verus! {

/// Prices are fixed-point numbers with eight decimal places.
pub const PRICE_SCALE: u64 = 100_000_000;

/// Quantities are fixed-point numbers with two decimal places.
pub const QUANTITY_SCALE: u64 = 100;

/// Monetary amounts (notional values, fees, PnL) are expressed in units of
/// one price unit times one quantity unit, i.e. ten decimal places.
pub const AMOUNT_SCALE: u128 = 10_000_000_000;

/// The largest price the engine handles (10 million in quote currency).
pub const MAX_PRICE: u64 = 1_000_000_000_000_000;

/// The largest quantity the engine handles (100 billion units of base currency).
pub const MAX_QUANTITY: u64 = 10_000_000_000_000;

/// The largest leverage multiplier.
pub const MAX_LEVERAGE: u64 = 10;

/// Bound on the magnitude of a realized PnL. Together with the price, quantity
/// and leverage bounds it keeps every intermediate value within 128 bits.
pub const MAX_PNL: i128 = 1_000_000_000_000_000_000_000_000_000_000_000;

/// ROE values are expressed in hundredths of a percent.
pub const ROE_SCALE: i128 = 100;

/// One basis point is a ten-thousandth.
pub const BASIS_POINTS: u64 = 10_000;

/// Fee for opening and for closing a trade, in basis points of the notional value.
pub const EXECUTION_FEE_BPS: u64 = 5;

/// Funding fee charged at every funding instant, in basis points of the notional value.
pub const FUNDING_FEE_8H_BPS: u64 = 1;

/// Length of a funding interval, in seconds.
pub const FUNDING_INTERVAL_SECONDS: i64 = 28_800;

/// Seconds in a day.
pub const SECONDS_PER_DAY: i64 = 86_400;

/// Seconds in an hour.
pub const SECONDS_PER_HOUR: i64 = 3_600;

/// The UTC hours at which funding fees accrue, earliest first.
pub const FUNDING_FEE_HOURS: [u8; 3] = [0, 8, 16];

/// Maintenance margin in basis points of the notional value (1%).
pub const MAINTENANCE_MARGIN_BPS: u64 = 100;

/// Default notional value of a new trade, in whole units of quote currency.
pub const DEFAULT_NOTIONAL_VALUE: u64 = 1_000;

/// Default take-profit distance from the entry price, in percent.
pub const DEFAULT_TAKE_PROFIT_PERCENTAGE: u64 = 5;

/// Default stop-loss distance from the entry price, in percent.
pub const DEFAULT_STOP_LOSS_PERCENTAGE: u64 = 2;

/// Largest number of records returned by one page of a listing.
pub const MAX_PER_PAGE: u32 = 100;

/// Earliest timestamp (seconds since the Unix epoch) of a UTC date-time.
pub const MIN_TIMESTAMP: i64 = -8_334_601_315_200;

/// Latest timestamp (seconds since the Unix epoch) of a UTC date-time.
pub const MAX_TIMESTAMP: i64 = 8_210_266_876_799;

/// The leverage new trades are opened with.
pub const DEFAULT_LEVERAGE: TradeLeverage = TradeLeverage::Three;

/// Symbols (canonical form) that trades may be opened on.
pub const ACCEPTED_SYMBOLS: [&'static str; 4] = ["BTCUSDT", "ETHUSDT", "BNBUSDT", "SOLUSDT"];

} // verus!
