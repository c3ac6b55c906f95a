use paper_trading::models::{ActiveTrade, PriceTick, TradeDirection, TradeKind, TradeLeverage};
use paper_trading::registry::{Registry, RegistryError};
use paper_trading::trigger::{is_trigger_hit, trigger_reason, CloseReason};

const UNIT: u64 = 100_000_000;

fn trade(id: u128, name: &str, pair: &str, direction: TradeDirection) -> ActiveTrade {
    ActiveTrade {
        id,
        alert_name: name.to_string(),
        pair: pair.to_string(),
        direction,
        kind: TradeKind::Paper,
        open_timestamp: 1_700_000_000,
        quantity: 1_000,
        entry_price: 100 * UNIT,
        leverage: TradeLeverage::Three,
        liquidation_price: match direction {
            TradeDirection::Long => 67 * UNIT,
            TradeDirection::Short => 133 * UNIT,
        },
        take_profit: Some(match direction {
            TradeDirection::Long => 105 * UNIT,
            TradeDirection::Short => 95 * UNIT,
        }),
        stop_loss: Some(match direction {
            TradeDirection::Long => 98 * UNIT,
            TradeDirection::Short => 102 * UNIT,
        }),
    }
}

fn tick(symbol: &str, price: u64) -> PriceTick {
    PriceTick { symbol: symbol.to_string(), price, observed_at: 1_700_000_100 }
}

#[test]
fn insert_refuses_duplicate_key() {
    let mut registry = Registry::new();
    assert_eq!(registry.insert(trade(1, "a", "SOLUSDT", TradeDirection::Long)), Ok(()));
    assert_eq!(
        registry.insert(trade(2, "a", "SOLUSDT", TradeDirection::Short)),
        Err(RegistryError::DuplicateKey)
    );
    assert_eq!(registry.len(), 1);
}

#[test]
fn insert_refuses_duplicate_id() {
    let mut registry = Registry::new();
    assert_eq!(registry.insert(trade(1, "a", "SOLUSDT", TradeDirection::Long)), Ok(()));
    assert_eq!(
        registry.insert(trade(1, "b", "SOLUSDT", TradeDirection::Long)),
        Err(RegistryError::DuplicateId)
    );
    assert_eq!(registry.len(), 1);
}

#[test]
fn same_pair_under_other_alert_names() {
    let mut registry = Registry::new();
    assert_eq!(registry.insert(trade(1, "a", "SOLUSDT", TradeDirection::Long)), Ok(()));
    assert_eq!(registry.insert(trade(2, "b", "SOLUSDT", TradeDirection::Short)), Ok(()));
    assert_eq!(registry.insert(trade(3, "a", "BTCUSDT", TradeDirection::Short)), Ok(()));
    assert_eq!(registry.len(), 3);
    let on_sol = registry.find_by_symbol(&"SOLUSDT".to_string());
    assert_eq!(on_sol.iter().map(|t| t.id).collect::<Vec<_>>(), vec![1, 2]);
    assert!(registry.find_by_symbol(&"ETHUSDT".to_string()).is_empty());
}

#[test]
fn find_by_idempotency_key_matches_all_three_parts() {
    let mut registry = Registry::new();
    assert_eq!(registry.insert(trade(7, "a", "SOLUSDT", TradeDirection::Long)), Ok(()));
    let found = registry.find_by_idempotency_key(
        &"a".to_string(),
        &"SOLUSDT".to_string(),
        TradeKind::Paper,
    );
    assert_eq!(found.map(|t| t.id), Some(7));
    assert!(registry
        .find_by_idempotency_key(&"a".to_string(), &"SOLUSDT".to_string(), TradeKind::Live)
        .is_none());
    assert!(registry
        .find_by_idempotency_key(&"b".to_string(), &"SOLUSDT".to_string(), TradeKind::Paper)
        .is_none());
}

#[test]
fn remove_returns_the_position() {
    let mut registry = Registry::new();
    assert_eq!(registry.insert(trade(1, "a", "SOLUSDT", TradeDirection::Long)), Ok(()));
    assert_eq!(registry.insert(trade(2, "b", "SOLUSDT", TradeDirection::Long)), Ok(()));
    assert_eq!(registry.remove(1).map(|t| t.alert_name), Ok("a".to_string()));
    assert_eq!(registry.len(), 1);
    assert_eq!(registry.remove(1).map(|t| t.id), Err(RegistryError::NotFound));
    // the key is free again
    assert_eq!(registry.insert(trade(3, "a", "SOLUSDT", TradeDirection::Short)), Ok(()));
}

#[test]
fn claim_and_release() {
    let mut registry = Registry::new();
    assert_eq!(registry.insert(trade(1, "a", "SOLUSDT", TradeDirection::Long)), Ok(()));
    assert_eq!(registry.claim(1).map(|t| t.id), Ok(1));
    assert_eq!(registry.claim(1).map(|t| t.id), Err(RegistryError::InFlight));
    assert_eq!(registry.claim(9).map(|t| t.id), Err(RegistryError::NotFound));
    assert_eq!(registry.release(1), Ok(()));
    assert_eq!(registry.release(1), Err(RegistryError::NotInFlight));
    assert_eq!(registry.release(9), Err(RegistryError::NotFound));
    assert_eq!(registry.claim(1).map(|t| t.id), Ok(1));
}

#[test]
fn trigger_reasons_for_a_long() {
    let long = trade(1, "a", "SOLUSDT", TradeDirection::Long);
    assert_eq!(trigger_reason(&long, 100 * UNIT), None);
    assert_eq!(trigger_reason(&long, 105 * UNIT), Some(CloseReason::TakeProfit));
    assert_eq!(trigger_reason(&long, 98 * UNIT), Some(CloseReason::StopLoss));
    assert_eq!(trigger_reason(&long, 67 * UNIT), Some(CloseReason::Liquidation));
    assert_eq!(trigger_reason(&long, 60 * UNIT), Some(CloseReason::Liquidation));
    assert!(is_trigger_hit(&long, 97 * UNIT));
    assert!(!is_trigger_hit(&long, 99 * UNIT));
}

#[test]
fn trigger_reasons_for_a_short() {
    let short = trade(1, "a", "SOLUSDT", TradeDirection::Short);
    assert_eq!(trigger_reason(&short, 100 * UNIT), None);
    assert_eq!(trigger_reason(&short, 95 * UNIT), Some(CloseReason::TakeProfit));
    assert_eq!(trigger_reason(&short, 102 * UNIT), Some(CloseReason::StopLoss));
    assert_eq!(trigger_reason(&short, 133 * UNIT), Some(CloseReason::Liquidation));
}

#[test]
fn liquidation_takes_precedence_over_stop_loss() {
    // a stop loss set below the liquidation price: both reached at 50
    let mut long = trade(1, "a", "SOLUSDT", TradeDirection::Long);
    long.stop_loss = Some(60 * UNIT);
    long.take_profit = Some(10 * UNIT);
    assert_eq!(trigger_reason(&long, 50 * UNIT), Some(CloseReason::Liquidation));
    assert_eq!(trigger_reason(&long, 62 * UNIT), Some(CloseReason::Liquidation));
}

#[test]
fn stop_loss_takes_precedence_over_take_profit() {
    let mut short = trade(1, "a", "SOLUSDT", TradeDirection::Short);
    short.take_profit = Some(110 * UNIT);
    assert_eq!(trigger_reason(&short, 105 * UNIT), Some(CloseReason::StopLoss));
}

#[test]
fn tick_closes_every_triggered_position_once() {
    let mut registry = Registry::new();
    assert_eq!(registry.insert(trade(1, "a", "SOLUSDT", TradeDirection::Long)), Ok(()));
    assert_eq!(registry.insert(trade(2, "b", "SOLUSDT", TradeDirection::Long)), Ok(()));
    assert_eq!(registry.insert(trade(3, "c", "SOLUSDT", TradeDirection::Short)), Ok(()));
    assert_eq!(registry.insert(trade(4, "a", "BTCUSDT", TradeDirection::Long)), Ok(()));
    let started = registry.claim_triggered(&tick("SOLUSDT", 67 * UNIT));
    let picked: Vec<(u128, CloseReason)> = started.iter().map(|c| (c.trade.id, c.reason)).collect();
    assert_eq!(
        picked,
        vec![
            (1, CloseReason::Liquidation),
            (2, CloseReason::Liquidation),
            (3, CloseReason::TakeProfit),
        ]
    );
    // the same tick again starts nothing: those closures are in flight
    assert!(registry.claim_triggered(&tick("SOLUSDT", 67 * UNIT)).is_empty());
    assert_eq!(registry.claim(1).map(|t| t.id), Err(RegistryError::InFlight));
    assert_eq!(registry.len(), 4);
}

#[test]
fn failed_closure_is_evaluated_again() {
    let mut registry = Registry::new();
    assert_eq!(registry.insert(trade(1, "a", "SOLUSDT", TradeDirection::Long)), Ok(()));
    assert_eq!(registry.claim_triggered(&tick("SOLUSDT", 66 * UNIT)).len(), 1);
    assert_eq!(registry.release(1), Ok(()));
    let again = registry.claim_triggered(&tick("SOLUSDT", 66 * UNIT));
    assert_eq!(again.len(), 1);
    assert_eq!(registry.remove(1).map(|t| t.id), Ok(1));
    assert!(registry.claim_triggered(&tick("SOLUSDT", 66 * UNIT)).is_empty());
}

#[test]
fn reserved_position_holds_its_key() {
    let mut registry = Registry::new();
    assert_eq!(registry.reserve(trade(1, "a", "SOLUSDT", TradeDirection::Long)), Ok(()));
    assert_eq!(
        registry.insert(trade(2, "a", "SOLUSDT", TradeDirection::Short)),
        Err(RegistryError::DuplicateKey)
    );
    assert!(registry.contains_id(1));
    assert!(!registry.contains_id(2));
    assert!(registry.claim_triggered(&tick("SOLUSDT", 50 * UNIT)).is_empty());
    assert_eq!(registry.claim(1).map(|t| t.id), Err(RegistryError::InFlight));
    assert_eq!(registry.release(1), Ok(()));
    assert_eq!(registry.claim_triggered(&tick("SOLUSDT", 50 * UNIT)).len(), 1);
}
