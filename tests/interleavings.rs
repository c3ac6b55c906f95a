use paper_trading::lifecycle::{abort_paper_trade, commit_paper_trade, plan_paper_trade, AlertPlan};
use paper_trading::models::{ActiveTrade, PriceTick, TradeSignal, TradingViewAlert};
use paper_trading::registry::Registry;

const UNIT: u64 = 100_000_000;
const PAIRS: [&str; 2] = ["SOLUSDT", "BTCUSDT"];
const NAMES: [&str; 3] = ["a", "b", "c"];

struct Lcg(u64);

impl Lcg {
    fn next(&mut self, bound: u64) -> u64 {
        self.0 = self.0.wrapping_mul(6_364_136_223_846_793_005).wrapping_add(1_442_695_040_888_963_407);
        (self.0 >> 33) % bound
    }
}

fn open_positions(registry: &Registry) -> Vec<ActiveTrade> {
    let mut all = Vec::new();
    for pair in PAIRS {
        all.extend(registry.find_by_symbol(&pair.to_string()));
    }
    all
}

fn assert_one_per_key(registry: &Registry) {
    let all = open_positions(registry);
    assert_eq!(all.len(), registry.len());
    for (i, a) in all.iter().enumerate() {
        for b in &all[i + 1..] {
            assert!(
                !(a.alert_name == b.alert_name && a.pair == b.pair && a.kind == b.kind),
                "two open positions share a key"
            );
            assert!(a.id != b.id);
        }
    }
}

/// The active records of the store, written before each commit as the server does.
struct Store {
    active: Vec<(u128, String, String)>,
}

impl Store {
    fn add(&mut self, trade: &ActiveTrade) {
        self.active.push((trade.id, trade.alert_name.clone(), trade.pair.clone()));
    }

    fn delete(&mut self, id: u128) {
        self.active.retain(|(stored, _, _)| *stored != id);
    }

    fn assert_one_per_key(&self) {
        for (i, a) in self.active.iter().enumerate() {
            for b in &self.active[i + 1..] {
                assert!(!(a.1 == b.1 && a.2 == b.2), "the store holds two active trades for a key");
            }
        }
    }
}

fn run(seed: u64) {
    let mut rng = Lcg(seed);
    let mut registry = Registry::new();
    let mut store = Store { active: Vec::new() };
    let mut pending_plans: Vec<AlertPlan> = Vec::new();
    let mut pending_closes: Vec<u128> = Vec::new();
    let mut next_id: u128 = 1;
    let mut now: i64 = 1_700_000_000;
    for _ in 0..3_000 {
        now += rng.next(600) as i64;
        match rng.next(5) {
            0 | 1 => {
                let alert = TradingViewAlert {
                    name: NAMES[rng.next(3) as usize].to_string(),
                    signal: if rng.next(2) == 0 { TradeSignal::Buy } else { TradeSignal::Sell },
                    pair: PAIRS[rng.next(2) as usize].to_string(),
                    price: (80 + rng.next(40)) * UNIT,
                    take_profit: None,
                    stop_loss: None,
                    secret: String::new(),
                };
                if let Ok(plan) = plan_paper_trade(&mut registry, &alert, now, next_id) {
                    next_id += 1;
                    pending_plans.push(plan);
                }
            }
            2 => {
                if !pending_plans.is_empty() {
                    let plan = pending_plans.swap_remove(rng.next(pending_plans.len() as u64) as usize);
                    if rng.next(4) == 0 {
                        assert_eq!(abort_paper_trade(&mut registry, &plan), Ok(()));
                    } else {
                        match &plan {
                            AlertPlan::Ignore => {}
                            AlertPlan::Open(trade) => store.add(trade),
                            AlertPlan::Reverse { closed, opened } => {
                                store.delete(closed.id);
                                store.add(opened);
                            }
                        }
                        store.assert_one_per_key();
                        assert_eq!(commit_paper_trade(&mut registry, plan), Ok(()));
                    }
                }
            }
            3 => {
                let tick = PriceTick {
                    symbol: PAIRS[rng.next(2) as usize].to_string(),
                    price: (60 + rng.next(80)) * UNIT,
                    observed_at: now,
                };
                for started in registry.claim_triggered(&tick) {
                    pending_closes.push(started.trade.id);
                }
            }
            _ => {
                if !pending_closes.is_empty() {
                    let id = pending_closes.swap_remove(rng.next(pending_closes.len() as u64) as usize);
                    if rng.next(4) == 0 {
                        assert!(registry.release(id).is_ok());
                    } else {
                        store.delete(id);
                        assert!(registry.remove(id).is_ok());
                    }
                }
            }
        }
        assert_one_per_key(&registry);
        store.assert_one_per_key();
    }
    // every stored active trade is open in memory
    for (id, _, _) in &store.active {
        assert!(registry.contains_id(*id));
    }
}

#[test]
fn one_position_per_key_under_interleavings() {
    for seed in 1..20 {
        run(seed);
    }
}
