use paper_trading::api::{page_window, secret_matches, AlertOutcome, StoreStep};
use paper_trading::lifecycle::TradeError;
use paper_trading::models::{TradeDirection, TradeSignal, TradingViewAlert};

#[test]
fn page_window_caps_page_size() {
    assert_eq!(page_window(1, 1_000), (0, 100));
    assert_eq!(page_window(3, 20), (40, 20));
    assert_eq!(page_window(2, 100), (100, 100));
    assert_eq!(page_window(u32::MAX, u32::MAX), ((u32::MAX as u64 - 1) * 100, 100));
}

#[test]
fn secret_must_match() {
    let alert = TradingViewAlert {
        name: "a".to_string(),
        signal: TradeSignal::Buy,
        pair: "SOLUSDT".to_string(),
        price: 1,
        take_profit: None,
        stop_loss: None,
        secret: "s3cret".to_string(),
    };
    assert!(secret_matches(&alert, &"s3cret".to_string()));
    assert!(!secret_matches(&alert, &"other".to_string()));
}

#[test]
fn outcomes_map_to_statuses() {
    assert_eq!(AlertOutcome::Opened.status_code(), 200);
    assert_eq!(AlertOutcome::Ignored.status_code(), 200);
    assert_eq!(AlertOutcome::Reversed.status_line(), "200 OK");
    assert_eq!(AlertOutcome::Unauthorized.status_code(), 401);
    assert_eq!(AlertOutcome::Unprocessable.status_code(), 422);
    assert_eq!(AlertOutcome::Rejected(TradeError::InvalidPrice).status_code(), 422);
    assert_eq!(AlertOutcome::StoreFailed(StoreStep::AddClosedTrade).status_code(), 500);
    let response = AlertOutcome::Ignored.response();
    assert_eq!(response.status, "200 OK");
    assert_eq!(response.message, "Alert signal matches existing trade direction. Ignoring alert.");
    assert!(response.data.is_none());
}

#[test]
fn signal_resolves_to_direction() {
    assert_eq!(TradeDirection::from(TradeSignal::Buy), TradeDirection::Long);
    assert_eq!(TradeDirection::from(TradeSignal::Sell), TradeDirection::Short);
}
