use vstd::prelude::*;

use crate::models::{ActiveTrade, PriceTick, TradeKind};
use crate::trigger::{trigger_reason, trigger_spec, CloseReason};

verus! {

/// Why a registry operation was refused.
#[derive(Debug, Clone, Copy, PartialEq, Eq, Structural)]
pub enum RegistryError {
    /// an open position already has the same alert name, pair and kind.
    DuplicateKey,
    /// an open position already has the same id.
    DuplicateId,
    /// no open position has the id.
    NotFound,
    /// the position is in flight: being opened or being closed.
    InFlight,
    /// the position is not in flight.
    NotInFlight,
}

/// A position picked for closure by a tick, with the reason.
#[derive(Debug)]
pub struct TriggeredClose {
    pub trade: ActiveTrade,
    pub reason: CloseReason,
}

/// Whether two positions share an idempotency key (alert name, pair, kind).
pub open spec fn same_key(a: ActiveTrade, b: ActiveTrade) -> bool {
    &&& a.alert_name@ == b.alert_name@
    &&& a.pair@ == b.pair@
    &&& a.kind == b.kind
}

/// Whether `trade` has the idempotency key `(alert_name, pair, kind)`.
pub open spec fn has_key(trade: ActiveTrade, alert_name: Seq<char>, pair: Seq<char>, kind: TradeKind) -> bool {
    &&& trade.alert_name@ == alert_name
    &&& trade.pair@ == pair
    &&& trade.kind == kind
}

/// No two positions share an idempotency key.
pub open spec fn keys_unique(s: Seq<ActiveTrade>) -> bool {
    forall|i: int, j: int| 0 <= i < j < s.len() ==> !same_key(#[trigger] s[i], #[trigger] s[j])
}

/// No two positions share an id.
pub open spec fn ids_unique(s: Seq<ActiveTrade>) -> bool {
    forall|i: int, j: int| 0 <= i < j < s.len() ==> (#[trigger] s[i]).id != (#[trigger] s[j]).id
}

/// Whether some position in `s` has the id.
pub open spec fn contains_id(s: Seq<ActiveTrade>, id: u128) -> bool {
    exists|i: int| 0 <= i < s.len() && (#[trigger] s[i]).id == id
}

/// Whether some position in `s` has the idempotency key.
pub open spec fn contains_key(s: Seq<ActiveTrade>, alert_name: Seq<char>, pair: Seq<char>, kind: TradeKind) -> bool {
    exists|i: int| 0 <= i < s.len() && has_key(#[trigger] s[i], alert_name, pair, kind)
}

/// The in-memory index of open positions. Each position carries a flag that
/// is set while it is in flight: while its opening is being stored (it then
/// already holds its idempotency key, so no second alert can open under that
/// key) or while its closure is being stored (so no second close, from a tick
/// or an alert, can start on it). Ticks do not evaluate positions in flight.
pub struct Registry {
    trades: Vec<ActiveTrade>,
    in_flight: Vec<bool>,
}

impl Registry {
    /// The open positions, in insertion order.
    pub closed spec fn positions(&self) -> Seq<ActiveTrade> {
        self.trades@
    }

    /// For each position, whether its closure is in flight.
    pub closed spec fn in_flight(&self) -> Seq<bool> {
        self.in_flight@
    }

    /// The registry's invariant: one flag per position, every position within
    /// bounds, and no two positions sharing an id or an idempotency key.
    pub open spec fn wf(&self) -> bool {
        &&& self.positions().len() == self.in_flight().len()
        &&& keys_unique(self.positions())
        &&& ids_unique(self.positions())
        &&& forall|i: int| 0 <= i < self.positions().len() ==> (#[trigger] self.positions()[i]).wf()
    }

    /// Creates an empty registry.
    pub fn new() -> (r: Registry)
        ensures
            r.wf(),
            r.positions() == Seq::<ActiveTrade>::empty(),
            r.in_flight() == Seq::<bool>::empty(),
    {
        Registry { trades: Vec::new(), in_flight: Vec::new() }
    }

    /// Number of open positions.
    pub fn len(&self) -> (r: usize)
        ensures
            r == self.positions().len(),
    {
        self.trades.len()
    }

    /// Whether an open position has the id.
    pub fn contains_id(&self, id: u128) -> (r: bool)
        ensures
            r == contains_id(self.positions(), id),
    {
        self.index_of_id(id).is_some()
    }

    /// Index of the position with the id, if any.
    fn index_of_id(&self, id: u128) -> (r: Option<usize>)
        ensures
            match r {
                Some(i) => i < self.positions().len() && self.positions()[i as int].id == id,
                None => !contains_id(self.positions(), id),
            },
    {
        let mut i: usize = 0;
        while i < self.trades.len()
            invariant
                0 <= i <= self.trades@.len(),
                forall|j: int| 0 <= j < i ==> (#[trigger] self.trades@[j]).id != id,
            decreases self.trades@.len() - i,
        {
            if self.trades[i].id == id {
                return Some(i);
            }
            i = i + 1;
        }
        None
    }

    /// Index of the position with the idempotency key, if any.
    fn index_of_key(&self, alert_name: &String, pair: &String, kind: TradeKind) -> (r: Option<usize>)
        ensures
            match r {
                Some(i) => i < self.positions().len() && has_key(
                    self.positions()[i as int],
                    alert_name@,
                    pair@,
                    kind,
                ),
                None => !contains_key(self.positions(), alert_name@, pair@, kind),
            },
    {
        let mut i: usize = 0;
        while i < self.trades.len()
            invariant
                0 <= i <= self.trades@.len(),
                forall|j: int|
                    0 <= j < i ==> !has_key(#[trigger] self.trades@[j], alert_name@, pair@, kind),
            decreases self.trades@.len() - i,
        {
            let trade = &self.trades[i];
            if trade.kind == kind && trade.alert_name == *alert_name && trade.pair == *pair {
                return Some(i);
            }
            i = i + 1;
        }
        None
    }

    /// Adds a position with the given in-flight mark. Refused when a position
    /// with the same idempotency key, or else with the same id, is already
    /// open; the registry is then unchanged.
    fn add(&mut self, trade: ActiveTrade, in_flight: bool) -> (r: Result<(), RegistryError>)
        requires
            old(self).wf(),
            trade.wf(),
        ensures
            final(self).wf(),
            match r {
                Ok(()) => {
                    &&& !contains_key(old(self).positions(), trade.alert_name@, trade.pair@, trade.kind)
                    &&& !contains_id(old(self).positions(), trade.id)
                    &&& final(self).positions() == old(self).positions().push(trade)
                    &&& final(self).in_flight() == old(self).in_flight().push(in_flight)
                },
                Err(e) => {
                    &&& final(self).positions() == old(self).positions()
                    &&& final(self).in_flight() == old(self).in_flight()
                    &&& (e == RegistryError::DuplicateKey) == contains_key(
                        old(self).positions(),
                        trade.alert_name@,
                        trade.pair@,
                        trade.kind,
                    )
                    &&& e == RegistryError::DuplicateKey || (e == RegistryError::DuplicateId
                        && contains_id(old(self).positions(), trade.id))
                },
            },
    {
        if self.index_of_key(&trade.alert_name, &trade.pair, trade.kind).is_some() {
            return Err(RegistryError::DuplicateKey);
        }
        if self.index_of_id(trade.id).is_some() {
            return Err(RegistryError::DuplicateId);
        }
        let ghost before = self.trades@;
        self.trades.push(trade);
        self.in_flight.push(in_flight);
        proof {
            let s = self.trades@;
            assert forall|i: int, j: int| 0 <= i < j < s.len() implies !same_key(
                #[trigger] s[i],
                #[trigger] s[j],
            ) by {
                if j == s.len() - 1 {
                    if same_key(s[i], s[j]) {
                        assert(has_key(before[i], s[j].alert_name@, s[j].pair@, s[j].kind));
                    }
                }
            }
            assert forall|i: int, j: int| 0 <= i < j < s.len() implies (#[trigger] s[i]).id != (
            #[trigger] s[j]).id by {
                if j == s.len() - 1 {
                    assert(before[i] == s[i]);
                }
            }
            assert forall|i: int| 0 <= i < s.len() implies (#[trigger] s[i]).wf() by {
                if i < before.len() {
                    assert(before[i] == s[i]);
                }
            }
        }
        Ok(())
    }

    /// Adds an open position. Refused when a position with the same idempotency
    /// key, or else with the same id, is already open; the registry is then unchanged.
    pub fn insert(&mut self, trade: ActiveTrade) -> (r: Result<(), RegistryError>)
        requires
            old(self).wf(),
            trade.wf(),
        ensures
            final(self).wf(),
            match r {
                Ok(()) => {
                    &&& !contains_key(old(self).positions(), trade.alert_name@, trade.pair@, trade.kind)
                    &&& !contains_id(old(self).positions(), trade.id)
                    &&& final(self).positions() == old(self).positions().push(trade)
                    &&& final(self).in_flight() == old(self).in_flight().push(false)
                },
                Err(e) => {
                    &&& final(self).positions() == old(self).positions()
                    &&& final(self).in_flight() == old(self).in_flight()
                    &&& (e == RegistryError::DuplicateKey) == contains_key(
                        old(self).positions(),
                        trade.alert_name@,
                        trade.pair@,
                        trade.kind,
                    )
                    &&& e == RegistryError::DuplicateKey || (e == RegistryError::DuplicateId
                        && contains_id(old(self).positions(), trade.id))
                },
            },
    {
        self.add(trade, false)
    }

    /// Adds a position whose opening is being stored, marked as in flight: it
    /// holds its idempotency key from now on but is not evaluated by ticks until
    /// `release`d. Refused as `insert` is.
    pub fn reserve(&mut self, trade: ActiveTrade) -> (r: Result<(), RegistryError>)
        requires
            old(self).wf(),
            trade.wf(),
        ensures
            final(self).wf(),
            match r {
                Ok(()) => {
                    &&& !contains_key(old(self).positions(), trade.alert_name@, trade.pair@, trade.kind)
                    &&& !contains_id(old(self).positions(), trade.id)
                    &&& final(self).positions() == old(self).positions().push(trade)
                    &&& final(self).in_flight() == old(self).in_flight().push(true)
                },
                Err(e) => {
                    &&& final(self).positions() == old(self).positions()
                    &&& final(self).in_flight() == old(self).in_flight()
                    &&& (e == RegistryError::DuplicateKey) == contains_key(
                        old(self).positions(),
                        trade.alert_name@,
                        trade.pair@,
                        trade.kind,
                    )
                    &&& e == RegistryError::DuplicateKey || (e == RegistryError::DuplicateId
                        && contains_id(old(self).positions(), trade.id))
                },
            },
    {
        self.add(trade, true)
    }

    /// Removes the position with the id and returns it; refused when no
    /// position has that id, the registry then being unchanged.
    pub fn remove(&mut self, id: u128) -> (r: Result<ActiveTrade, RegistryError>)
        requires
            old(self).wf(),
        ensures
            final(self).wf(),
            match r {
                Ok(trade) => exists|i: int|
                    0 <= i < old(self).positions().len() && #[trigger] old(self).positions()[i]
                        == trade && trade.id == id && final(self).positions() == old(self).positions().remove(i) && final(self).in_flight() == old(self).in_flight().remove(i),
                Err(e) => {
                    &&& e == RegistryError::NotFound
                    &&& !contains_id(old(self).positions(), id)
                    &&& final(self).positions() == old(self).positions()
                    &&& final(self).in_flight() == old(self).in_flight()
                },
            },
    {
        match self.index_of_id(id) {
            None => Err(RegistryError::NotFound),
            Some(i) => {
                let ghost before = self.trades@;
                let trade = self.trades.remove(i);
                self.in_flight.remove(i);
                proof {
                    let s = self.trades@;
                    assert forall|a: int, b: int| 0 <= a < b < s.len() implies !same_key(
                        #[trigger] s[a],
                        #[trigger] s[b],
                    ) by {
                        let a0 = if a < i { a } else { a + 1 };
                        let b0 = if b < i { b } else { b + 1 };
                        assert(s[a] == before[a0] && s[b] == before[b0]);
                    }
                    assert forall|a: int, b: int| 0 <= a < b < s.len() implies (#[trigger] s[a]).id
                        != (#[trigger] s[b]).id by {
                        let a0 = if a < i { a } else { a + 1 };
                        let b0 = if b < i { b } else { b + 1 };
                        assert(s[a] == before[a0] && s[b] == before[b0]);
                    }
                    assert forall|a: int| 0 <= a < s.len() implies (#[trigger] s[a]).wf() by {
                        let a0 = if a < i { a } else { a + 1 };
                        assert(s[a] == before[a0]);
                    }
                    assert(before[i as int] == trade);
                }
                Ok(trade)
            },
        }
    }

    /// Returns a copy of the open position with the idempotency key
    /// `(alert_name, pair, kind)`, if there is one.
    pub fn find_by_idempotency_key(&self, alert_name: &String, pair: &String, kind: TradeKind) -> (r:
        Option<ActiveTrade>)
        ensures
            match r {
                Some(trade) => exists|i: int|
                    0 <= i < self.positions().len() && #[trigger] self.positions()[i] == trade
                        && has_key(trade, alert_name@, pair@, kind),
                None => !contains_key(self.positions(), alert_name@, pair@, kind),
            },
    {
        match self.index_of_key(alert_name, pair, kind) {
            Some(i) => Some(self.trades[i].duplicate()),
            None => None,
        }
    }

    /// Returns a snapshot of the open positions on `symbol`, in registry order.
    /// This is a linear scan over all positions.
    pub fn find_by_symbol(&self, symbol: &String) -> (r: Vec<ActiveTrade>)
        ensures
            r@ == self.positions().filter(|t: ActiveTrade| t.pair@ == symbol@),
    {
        let ghost pred = |t: ActiveTrade| t.pair@ == symbol@;
        let mut found: Vec<ActiveTrade> = Vec::new();
        let mut i: usize = 0;
        while i < self.trades.len()
            invariant
                0 <= i <= self.trades@.len(),
                pred == (|t: ActiveTrade| t.pair@ == symbol@),
                found@ == self.trades@.subrange(0, i as int).filter(pred),
            decreases self.trades@.len() - i,
        {
            let ghost prefix = self.trades@.subrange(0, i as int);
            assert(self.trades@.subrange(0, i + 1) == prefix.push(self.trades@[i as int]));
            proof {
                prefix.lemma_filter_push(self.trades@[i as int], pred);
            }
            if self.trades[i].pair == *symbol {
                found.push(self.trades[i].duplicate());
            }
            i = i + 1;
        }
        assert(self.trades@.subrange(0, self.trades@.len() as int) == self.trades@);
        found
    }

    /// Marks the position with the id as being closed (in flight) and returns
    /// a copy of it. Refused when no position has the id, or when it is already in flight.
    pub fn claim(&mut self, id: u128) -> (r: Result<ActiveTrade, RegistryError>)
        requires
            old(self).wf(),
        ensures
            final(self).wf(),
            final(self).positions() == old(self).positions(),
            match r {
                Ok(trade) => exists|i: int|
                    0 <= i < old(self).positions().len() && #[trigger] old(self).positions()[i]
                        == trade && trade.id == id && !old(self).in_flight()[i] && final(self).in_flight() == old(self).in_flight().update(i, true),
                Err(e) => {
                    &&& final(self).in_flight() == old(self).in_flight()
                    &&& (e == RegistryError::NotFound) == !contains_id(old(self).positions(), id)
                    &&& e == RegistryError::NotFound || e == RegistryError::InFlight
                    &&& e == RegistryError::InFlight ==> exists|i: int|
                        0 <= i < old(self).positions().len() && (#[trigger] old(self).positions()[i]).id == id && old(self).in_flight()[i]
                },
            },
    {
        match self.index_of_id(id) {
            None => Err(RegistryError::NotFound),
            Some(i) => {
                if self.in_flight[i] {
                    return Err(RegistryError::InFlight);
                }
                self.in_flight.set(i, true);
                Ok(self.trades[i].duplicate())
            },
        }
    }

    /// Clears the in-flight mark of the position with the id: after its
    /// opening was stored, or after its closure failed, so that it is
    /// evaluated again. Refused when no position has the id, or when it is not
    /// in flight.
    pub fn release(&mut self, id: u128) -> (r: Result<(), RegistryError>)
        requires
            old(self).wf(),
        ensures
            final(self).wf(),
            final(self).positions() == old(self).positions(),
            match r {
                Ok(()) => exists|i: int|
                    0 <= i < old(self).positions().len() && (#[trigger] old(self).positions()[i]).id
                        == id && old(self).in_flight()[i] && final(self).in_flight() == old(self).in_flight().update(i, false),
                Err(e) => {
                    &&& final(self).in_flight() == old(self).in_flight()
                    &&& (e == RegistryError::NotFound) == !contains_id(old(self).positions(), id)
                    &&& e == RegistryError::NotFound || e == RegistryError::NotInFlight
                    &&& e == RegistryError::NotInFlight ==> exists|i: int|
                        0 <= i < old(self).positions().len() && (#[trigger] old(self).positions()[i]).id == id && !old(self).in_flight()[i]
                },
            },
    {
        match self.index_of_id(id) {
            None => Err(RegistryError::NotFound),
            Some(i) => {
                if !self.in_flight[i] {
                    return Err(RegistryError::NotInFlight);
                }
                self.in_flight.set(i, false);
                Ok(())
            },
        }
    }

    /// Evaluates a tick against every open position on its symbol: each one
    /// that is not in flight and whose trigger is reached is marked as
    /// being closed and returned with the reason. Positions stay in the
    /// registry until their closure is committed with `remove`.
    pub fn claim_triggered(&mut self, tick: &PriceTick) -> (r: Vec<TriggeredClose>)
        requires
            old(self).wf(),
        ensures
            final(self).wf(),
            final(self).positions() == old(self).positions(),
            final(self).in_flight().len() == old(self).in_flight().len(),
            forall|i: int|
                0 <= i < old(self).in_flight().len() ==> #[trigger] final(self).in_flight()[i] == (old(self).in_flight()[i] || fires(
                    old(self).positions()[i],
                    old(self).in_flight()[i],
                    tick.symbol@,
                    tick.price as int,
                )),
            r@ == triggered_closes(
                old(self).positions(),
                old(self).in_flight(),
                tick.symbol@,
                tick.price as int,
                old(self).positions().len(),
            ),
    {
        let ghost old_in_flight = self.in_flight@;
        let mut started: Vec<TriggeredClose> = Vec::new();
        let mut i: usize = 0;
        while i < self.trades.len()
            invariant
                self.wf(),
                0 <= i <= self.trades@.len(),
                self.trades@ == old(self).trades@,
                old_in_flight == old(self).in_flight@,
                self.in_flight@.len() == old_in_flight.len(),
                forall|k: int|
                    0 <= k < self.in_flight@.len() ==> #[trigger] self.in_flight@[k] == (if k < i {
                        old_in_flight[k] || fires(
                            self.trades@[k],
                            old_in_flight[k],
                            tick.symbol@,
                            tick.price as int,
                        )
                    } else {
                        old_in_flight[k]
                    }),
                started@ == triggered_closes(
                    self.trades@,
                    old_in_flight,
                    tick.symbol@,
                    tick.price as int,
                    i as nat,
                ),
            decreases self.trades@.len() - i,
        {
            if !self.in_flight[i] && self.trades[i].pair == tick.symbol {
                match trigger_reason(&self.trades[i], tick.price) {
                    Some(reason) => {
                        let trade = self.trades[i].duplicate();
                        self.in_flight.set(i, true);
                        started.push(TriggeredClose { trade, reason });
                    },
                    None => {},
                }
            }
            i = i + 1;
        }
        started
    }
}

/// Whether a tick on `symbol` at `price` starts the closure of a position:
/// it is not in flight (being opened or closed), it is on that symbol, and one of its
/// triggers is reached.
pub open spec fn fires(trade: ActiveTrade, in_flight: bool, symbol: Seq<char>, price: int) -> bool {
    &&& !in_flight
    &&& trade.pair@ == symbol
    &&& trigger_spec(trade, price) is Some
}

/// The closures that a tick starts among the first `n` positions, in registry order.
pub open spec fn triggered_closes(
    positions: Seq<ActiveTrade>,
    in_flight: Seq<bool>,
    symbol: Seq<char>,
    price: int,
    n: nat,
) -> Seq<TriggeredClose>
    decreases n,
{
    if n == 0 {
        Seq::empty()
    } else {
        let i = n - 1;
        let earlier = triggered_closes(positions, in_flight, symbol, price, (n - 1) as nat);
        if fires(positions[i], in_flight[i], symbol, price) {
            earlier.push(
                TriggeredClose { trade: positions[i], reason: trigger_spec(positions[i], price)->0 },
            )
        } else {
            earlier
        }
    }
}

/// Every position on the tick's symbol whose liquidation price is reached,
/// and which is not in flight, is among the closures the tick
/// starts, with liquidation as the reason.
pub proof fn lemma_liquidated_positions_are_closed(
    positions: Seq<ActiveTrade>,
    in_flight: Seq<bool>,
    symbol: Seq<char>,
    price: int,
    n: nat,
    i: int,
)
    requires
        0 <= i < n <= positions.len(),
        n <= in_flight.len(),
        !in_flight[i],
        positions[i].pair@ == symbol,
        crate::trigger::liquidation_hit(positions[i], price),
    ensures
        triggered_closes(positions, in_flight, symbol, price, n).contains(
            TriggeredClose { trade: positions[i], reason: CloseReason::Liquidation },
        ),
    decreases n,
{
    let all = triggered_closes(positions, in_flight, symbol, price, n);
    let earlier = triggered_closes(positions, in_flight, symbol, price, (n - 1) as nat);
    if i == n - 1 {
        assert(all[all.len() - 1] == TriggeredClose {
            trade: positions[i],
            reason: CloseReason::Liquidation,
        });
    } else {
        lemma_liquidated_positions_are_closed(positions, in_flight, symbol, price, (n - 1) as nat, i);
        let k = choose|k: int|
            0 <= k < earlier.len() && earlier[k] == TriggeredClose {
                trade: positions[i],
                reason: CloseReason::Liquidation,
            };
        assert(all[k] == earlier[k]);
    }
}

/// Under the registry's invariant, a position is identified by its
/// idempotency key: two positions with the same key are the same entry.
pub proof fn lemma_one_position_per_key(registry: &Registry, i: int, j: int)
    requires
        registry.wf(),
        0 <= i < registry.positions().len(),
        0 <= j < registry.positions().len(),
        same_key(registry.positions()[i], registry.positions()[j]),
    ensures
        i == j,
{
    let s = registry.positions();
    if i < j {
        assert(!same_key(s[i], s[j]));
    } else if j < i {
        assert(!same_key(s[j], s[i]));
    }
}

} // verus!
