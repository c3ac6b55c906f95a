use paper_trading::models::CoinbaseTickerUpdate;
use paper_trading::ticker::{canonical_symbol, parse_price, ticker_to_tick};

fn update(update_type: &str, product_id: &str, price: Option<&str>) -> CoinbaseTickerUpdate {
    CoinbaseTickerUpdate {
        update_type: update_type.to_string(),
        sequence: Some(1),
        product_id: product_id.to_string(),
        price: price.map(|p| p.to_string()),
        open_24h: None,
        volume_24h: None,
        low_24h: None,
        high_24h: None,
        volume_30d: None,
        best_bid: None,
        best_bid_size: None,
        best_ask: None,
        best_ask_size: None,
        side: Some("buy".to_string()),
        time: Some("2024-12-27T10:50:33.372945Z".to_string()),
        trade_id: Some(42),
        last_size: None,
    }
}

#[test]
fn parses_decimal_prices() {
    assert_eq!(parse_price("96289.34"), Some(9_628_934_000_000));
    assert_eq!(parse_price("0.00001234"), Some(1_234));
    assert_eq!(parse_price("100"), Some(10_000_000_000));
    assert_eq!(parse_price("12."), Some(1_200_000_000));
    assert_eq!(parse_price("10000000"), Some(1_000_000_000_000_000));
}

#[test]
fn cuts_digits_beyond_eight_decimals() {
    assert_eq!(parse_price("1.123456789"), Some(112_345_678));
    assert_eq!(parse_price("0.000000019999"), Some(1));
    assert_eq!(parse_price("0.000000009"), None);
    assert_eq!(parse_price("1.123456789x"), None);
    assert_eq!(parse_price("1.12345678.9"), None);
}

#[test]
fn rejects_malformed_prices() {
    assert_eq!(parse_price(""), None);
    assert_eq!(parse_price(".5"), None);
    assert_eq!(parse_price("1.2.3"), None);
    assert_eq!(parse_price("12a"), None);
    assert_eq!(parse_price("-5"), None);
    assert_eq!(parse_price("0"), None);
    assert_eq!(parse_price("0.000"), None);
    assert_eq!(parse_price("10000000.00000001"), None);
    assert_eq!(parse_price("99999999999999999999999"), None);
    assert_eq!(parse_price("１２"), None);
}

#[test]
fn canonical_symbols_compare_equal() {
    assert_eq!(canonical_symbol("btc-usd"), "BTCUSD");
    assert_eq!(canonical_symbol("BTC/USD"), "BTCUSD");
    assert_eq!(canonical_symbol("sol_usdt"), "SOLUSDT");
    assert_eq!(canonical_symbol("SOLUSDT"), "SOLUSDT");
    assert_eq!(canonical_symbol(""), "");
}

#[test]
fn ticker_update_becomes_tick() {
    let tick = ticker_to_tick(&update("ticker", "BTC-USD", Some("96289.34")), 1_735_296_633).unwrap();
    assert_eq!(tick.symbol, "BTCUSD");
    assert_eq!(tick.price, 9_628_934_000_000);
    assert_eq!(tick.observed_at, 1_735_296_633);
}

#[test]
fn other_messages_are_dropped() {
    assert!(ticker_to_tick(&update("subscriptions", "BTC-USD", Some("1.0")), 0).is_none());
    assert!(ticker_to_tick(&update("ticker", "BTC-USD", None), 0).is_none());
    assert!(ticker_to_tick(&update("ticker", "BTC-USD", Some("n/a")), 0).is_none());
}
