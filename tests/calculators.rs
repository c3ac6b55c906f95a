use paper_trading::models::TradeDirection;
use paper_trading::trade_helpers::{
    calc_final_execution_fees, calc_final_funding_fees, calc_liquidation_price, calc_pnl,
    calc_roe, get_next_funding_time,
};

const UNIT: u64 = 100_000_000;

#[test]
fn liquidation_price_long_at_three_times_leverage() {
    // 100 * (1 - 1/3 + 0.01/3) = 67.00
    assert_eq!(calc_liquidation_price(100 * UNIT, 3, TradeDirection::Long), 67 * UNIT);
}

#[test]
fn liquidation_price_short_at_three_times_leverage() {
    // 100 * (1 + 1/3 - 0.01/3) = 133.00
    assert_eq!(calc_liquidation_price(100 * UNIT, 3, TradeDirection::Short), 133 * UNIT);
}

#[test]
fn liquidation_price_without_leverage() {
    assert_eq!(calc_liquidation_price(200 * UNIT, 1, TradeDirection::Long), 2 * UNIT);
    assert_eq!(calc_liquidation_price(200 * UNIT, 1, TradeDirection::Short), 398 * UNIT);
}

#[test]
fn execution_fee_charges_both_legs() {
    // 10 units at 100: notional 1000, fee 2 * 0.05% * 1000 = 1.00
    assert_eq!(calc_final_execution_fees(1_000, 100 * UNIT), 10_000_000_000);
}

#[test]
fn execution_fee_of_nothing_is_zero() {
    assert_eq!(calc_final_execution_fees(0, 100 * UNIT), 0);
}

#[test]
fn next_funding_time_within_the_day() {
    assert_eq!(get_next_funding_time(0), 28_800);
    assert_eq!(get_next_funding_time(28_799), 28_800);
    assert_eq!(get_next_funding_time(28_800), 57_600);
    assert_eq!(get_next_funding_time(57_599), 57_600);
}

#[test]
fn next_funding_time_rolls_to_next_day() {
    assert_eq!(get_next_funding_time(57_600), 86_400);
    assert_eq!(get_next_funding_time(86_399), 86_400);
    assert_eq!(get_next_funding_time(1_700_000_000), 1_700_006_400);
}

#[test]
fn next_funding_time_before_the_epoch() {
    assert_eq!(get_next_funding_time(-1), 0);
    assert_eq!(get_next_funding_time(-86_400), -57_600);
}

#[test]
fn funding_fee_counts_each_instant() {
    // average notional 1000 (in amount units), 0.01% per instant = 0.10
    let average = 1_000 * 10_000_000_000u128;
    assert_eq!(calc_final_funding_fees(0, 86_400, average), 3 * 1_000_000_000);
    assert_eq!(calc_final_funding_fees(0, 86_399, average), 2 * 1_000_000_000);
    assert_eq!(calc_final_funding_fees(1, 28_799, average), 0);
}

#[test]
fn funding_fee_zero_without_duration() {
    let average = 1_000 * 10_000_000_000u128;
    assert_eq!(calc_final_funding_fees(1_000, 1_000, average), 0);
    assert_eq!(calc_final_funding_fees(200_000, 100, average), 0);
}

#[test]
fn funding_fee_grows_with_duration() {
    let average = 5_000 * 10_000_000_000u128;
    let mut previous = 0;
    for close in (0..400_000i64).step_by(7_200) {
        let fee = calc_final_funding_fees(3_600, close, average);
        assert!(fee >= previous);
        previous = fee;
    }
    assert!(previous > 0);
}

#[test]
fn pnl_long_and_short() {
    // 10 units, 100 -> 110: raw +100 for a long, -100 for a short
    let raw = 1_000_000_000_000i128;
    assert_eq!(calc_pnl(100 * UNIT, 110 * UNIT, 1_000, 0, 0, TradeDirection::Long), raw);
    assert_eq!(calc_pnl(100 * UNIT, 110 * UNIT, 1_000, 0, 0, TradeDirection::Short), -raw);
    assert_eq!(
        calc_pnl(100 * UNIT, 110 * UNIT, 1_000, 7, 5, TradeDirection::Long),
        raw - 12
    );
}

#[test]
fn roe_relative_to_margin() {
    // pnl 100 on notional 1000 at 3x: margin 333.33, ROE 30.00%
    assert_eq!(calc_roe(1_000_000_000_000, 100 * UNIT, 1_000, 3), 3_000);
    assert_eq!(calc_roe(-1_000_000_000_000, 100 * UNIT, 1_000, 3), -3_000);
}

#[test]
fn roe_rounds_down() {
    assert_eq!(calc_roe(1, 3, 1, 1), 3_333);
    assert_eq!(calc_roe(-1, 3, 1, 1), -3_334);
}

#[test]
fn roe_linear_in_leverage() {
    let pnl = 1_000_000_000_000i128;
    let one = calc_roe(pnl, 100 * UNIT, 1_000, 1);
    for leverage in [1u64, 2, 3, 5, 10] {
        assert_eq!(calc_roe(pnl, 100 * UNIT, 1_000, leverage), one * leverage as i128);
    }
}

#[test]
fn liquidation_prices_straddle_the_entry() {
    assert_eq!(calc_liquidation_price(1, 1, TradeDirection::Long), 0);
    assert_eq!(calc_liquidation_price(1, 1, TradeDirection::Short), 2);
    for entry in [1u64, 7, 333, 100 * UNIT, 96_289_34_000_000] {
        for leverage in [1u64, 2, 3, 5, 10] {
            let long = calc_liquidation_price(entry, leverage, TradeDirection::Long);
            let short = calc_liquidation_price(entry, leverage, TradeDirection::Short);
            assert!(long < entry && entry < short);
            assert_eq!(long + short, 2 * entry);
        }
    }
}
