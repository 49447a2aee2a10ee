//! The execution engine: which orders go out, and what is recorded of them.
//!
//! The engine decides and records; the caller talks to the exchange in between.
//! An order is admitted, sent by the caller, and settled with what came back.
use crate::binary64::Binary64;
use crate::clock::{elapsed_ns, elapsed_spec, now_ms, now_ns, reading, Clock};
use crate::error::{ExecError, ExecErrorView};
use crate::order::{open_order, Order, OrderRequest, OrderStatus, RealPosition, Side};
use crate::pricing::{lot_size_for_symbol, round_to_lot};
use crate::state::{
    after_close, after_closes, after_outcome, after_real_request, closes_as, exit_reason_of,
    fresh_engine, listed_ids, log_cancelled, marked_ids, next_u64, real_refusal, sim_order_of,
    sim_refusal, MAX_ORDERS_PER_SEC,
};
use crate::state::{
    Admitted, BookLevel, ClosedPosition, EngineView, ExecStats, ExitReason, PlaceOutcome, RiskState,
    SettledFill, SimOrder, SimSide, Sizing,
};
use crate::tables::{
    clear_positions, insert_order, insert_position, new_orders, new_positions, no_positions,
    order_ids, order_table_len, orders_in, position_entries, positions_in, remove_order,
    remove_position,
};
use crate::text::{contains_text, has_text};
use crate::throttle::TokenBucket;
use crate::trade_ring::{log_exit, newest_first, ring_push, TradeRing};
use dashmap::DashMap;
use std::time::SystemTime;
use vstd::prelude::*;

verus! {

/// Orders in flight, the log of recent ones, the positions on the exchange, and
/// what is counted.
pub struct ExecutionEngine {
    active: DashMap<u64, Order>,
    order_log: TradeRing,
    real_positions: DashMap<u64, RealPosition>,
    throttle: TokenBucket,
    order_count: u64,
    fill_count: u64,
    reject_count: u64,
    risk: RiskState,
}

impl View for ExecutionEngine {
    type V = EngineView;

    closed spec fn view(&self) -> EngineView {
        EngineView {
            active: orders_in(self.active),
            log: self.order_log@,
            positions: positions_in(self.real_positions),
            throttle: self.throttle,
            order_count: self.order_count,
            fill_count: self.fill_count,
            reject_count: self.reject_count,
            risk: self.risk,
        }
    }
}

impl ExecutionEngine {
    pub open spec fn wf(&self) -> bool {
        self@.wf()
    }

    /// An engine with nothing in flight, whose throttle starts at `now`.
    pub fn new_at(risk: RiskState, now: u64) -> (r: ExecutionEngine)
        ensures
            r.wf(),
            r@ == fresh_engine(risk, now),
    {
        let r: ExecutionEngine = ExecutionEngine {
            active: new_orders(64),
            order_log: TradeRing::new(),
            real_positions: new_positions(16),
            throttle: TokenBucket::new_at(MAX_ORDERS_PER_SEC, now),
            order_count: 0,
            fill_count: 0,
            reject_count: 0,
            risk,
        };
        assert(r@.active =~= Map::empty());
        assert(r@.positions =~= Map::empty());
        r
    }

    /// An engine with nothing in flight.
    pub fn new(risk: RiskState, clock: &mut Clock) -> (r: ExecutionEngine)
        ensures
            r.wf(),
            exists|instant: SystemTime|
                final(clock).last == #[trigger] reading(old(clock).last, instant),
            r@ == fresh_engine(risk, final(clock).last),
    {
        let now: u64 = now_ns(clock);
        ExecutionEngine::new_at(risk, now)
    }

    pub fn risk(&self) -> (r: RiskState)
        ensures
            r == self@.risk,
    {
        self.risk
    }

    /// Takes over what the risk controls have set.
    pub fn set_risk(&mut self, risk: RiskState)
        requires
            old(self).wf(),
        ensures
            final(self).wf(),
            final(self)@ == (EngineView { risk, ..old(self)@ }),
    {
        self.risk = risk;
    }

    fn add_position(&mut self)
        ensures
            final(self)@ == old(self)@.opened(),
    {
        self.risk.open_positions = self.risk.open_positions.wrapping_add(1);
    }

    fn drop_position(&mut self)
        ensures
            final(self)@ == old(self)@.closed(),
    {
        self.risk.open_positions = self.risk.open_positions.wrapping_sub(1);
    }

    /// Admits a request for a real order, or says why not. An order that is
    /// admitted is in flight from then on, with its quantity rounded.
    pub fn admit_real_at(
        &mut self,
        req: OrderRequest,
        t_submit: u64,
        now: u64,
        sizing: Sizing,
    ) -> (r: Result<OrderRequest, ExecError>)
        requires
            old(self).wf(),
        ensures
            final(self).wf(),
            final(self)@ == after_real_request(old(self)@, req@, t_submit, now, sizing),
            match real_refusal(old(self)@, req@, now, sizing) {
                Some(e) => r matches Err(error) && error@ == e,
                None => r matches Ok(sent) && sent@ == req@.with_quantity(sizing.rounded(req@)),
            },
    {
        if self.risk.kill_switch {
            return Err(ExecError::KillSwitch);
        }
        if !self.throttle.allow_at(now) {
            return Err(ExecError::Throttled);
        }
        if sizing.limit.less_than(&sizing.notional) {
            return Err(ExecError::RiskSize);
        }
        let zero: Binary64 = Binary64::zero();
        let lot: Binary64 = lot_size_for_symbol(sizing.instruments, req.symbol_name.as_str());
        let rounded: Binary64 = round_to_lot(req.quantity, lot, sizing.nearest_multiple);
        if rounded.at_most(&zero) {
            return Err(ExecError::InvalidSize(sizing.lot_text.to_owned()));
        }
        let mut sent: OrderRequest = req;
        sent.quantity = rounded;
        insert_order(&mut self.active, sent.id, Order::opened(&sent, zero, zero, t_submit));
        self.add_position();
        self.order_count = self.order_count.wrapping_add(1);
        Ok(sent)
    }

    /// Admits a request for a real order now, or says why not.
    pub fn admit_real(&mut self, req: OrderRequest, sizing: Sizing, clock: &mut Clock) -> (r:
        Result<Admitted, ExecError>)
        requires
            old(self).wf(),
        ensures
            final(self).wf(),
            exists|a: SystemTime, b: SystemTime|
                #![trigger reading(reading(old(clock).last, a), b)]
                {
                    let t_submit = reading(old(clock).last, a);
                    let now = reading(t_submit, b);
                    &&& final(clock).last == now
                    &&& final(self)@ == after_real_request(
                        old(self)@,
                        req@,
                        t_submit,
                        now,
                        sizing,
                    )
                    &&& match real_refusal(old(self)@, req@, now, sizing) {
                        Some(e) => r matches Err(error) && error@ == e,
                        None => r matches Ok(admitted) && admitted.t_submit == t_submit
                            && admitted.request@ == req@.with_quantity(sizing.rounded(req@)),
                    }
                },
    {
        let t_submit: u64 = now_ns(clock);
        let now: u64 = now_ns(clock);
        match self.admit_real_at(req, t_submit, now, sizing) {
            Ok(request) => Ok(Admitted { request, t_submit }),
            Err(e) => Err(e),
        }
    }

    /// Records a fill: the order moves from flight to the log.
    pub fn on_fill(
        &mut self,
        id: u64,
        fill_price: Binary64,
        qty: Binary64,
        latency_ns: u64,
        keep_open: bool,
    )
        requires
            old(self).wf(),
        ensures
            final(self).wf(),
            final(self)@ == old(self)@.filled(id, fill_price, qty, latency_ns, keep_open),
    {
        let ghost s = self@;
        if !keep_open {
            self.drop_position();
        }
        self.fill_count = self.fill_count.wrapping_add(1);
        match remove_order(&mut self.active, id) {
            Some((_, found)) => {
                let mut order: Order = found;
                order.status = OrderStatus::Filled;
                order.filled_qty = qty;
                order.filled_price = fill_price;
                order.latency_ns = latency_ns;
                self.order_log.push(order);
            },
            None => {},
        }
        assert(self@ =~= s.filled(id, fill_price, qty, latency_ns, keep_open));
    }

    /// Records a rejection: the order moves from flight to the log.
    pub fn on_reject(&mut self, id: u64, latency_ns: u64)
        requires
            old(self).wf(),
        ensures
            final(self).wf(),
            final(self)@ == old(self)@.rejected(id, latency_ns),
    {
        let ghost s = self@;
        self.drop_position();
        self.reject_count = self.reject_count.wrapping_add(1);
        match remove_order(&mut self.active, id) {
            Some((_, found)) => {
                let mut order: Order = found;
                order.status = OrderStatus::Rejected;
                order.latency_ns = latency_ns;
                self.order_log.push(order);
            },
            None => {},
        }
        assert(self@ =~= s.rejected(id, latency_ns));
    }

    /// Settles an order that was sent at `t_submit`, with what became of it at
    /// `now`.
    pub fn settle_real_at(
        &mut self,
        req: &OrderRequest,
        t_submit: u64,
        now: u64,
        entry_ts_ms: u64,
        outcome: PlaceOutcome,
    ) -> (r: Result<SettledFill, ExecError>)
        requires
            old(self).wf(),
        ensures
            final(self).wf(),
            final(self)@ == after_outcome(
                old(self)@,
                req@,
                elapsed_spec(t_submit, now),
                entry_ts_ms,
                outcome,
            ),
            match outcome {
                PlaceOutcome::Filled(_) => r == Ok::<SettledFill, ExecError>(
                    SettledFill { order_id: req.id, place_bracket: req@.has_bracket() },
                ),
                PlaceOutcome::Failed(e) => r == Err::<SettledFill, ExecError>(e),
                PlaceOutcome::TimedOut => r matches Err(e) && e@ == ExecErrorView::Timeout(
                    req.timeout_ms,
                ),
            },
    {
        let latency_ns: u64 = elapsed_ns(t_submit, now);
        match outcome {
            PlaceOutcome::Filled(price) => {
                let place_bracket: bool = req.has_bracket();
                self.on_fill(req.id, price, req.quantity, latency_ns, place_bracket);
                if place_bracket {
                    let position: RealPosition = RealPosition {
                        symbol: req.symbol_name.clone(),
                        side: req.side,
                        entry_price: price,
                        quantity: req.quantity,
                        tp_price: req.tp_price,
                        sl_price: req.sl_price,
                        entry_ts_ms,
                    };
                    insert_position(&mut self.real_positions, req.id, position);
                }
                Ok(SettledFill { order_id: req.id, place_bracket })
            },
            PlaceOutcome::Failed(e) => {
                self.on_reject(req.id, latency_ns);
                Err(e)
            },
            PlaceOutcome::TimedOut => {
                self.on_reject(req.id, latency_ns);
                Err(ExecError::Timeout(req.timeout_ms))
            },
        }
    }

    /// Settles an order that was sent at `t_submit`, with what has become of it by
    /// now.
    pub fn settle_real(
        &mut self,
        req: &OrderRequest,
        t_submit: u64,
        outcome: PlaceOutcome,
        clock: &mut Clock,
    ) -> (r: Result<SettledFill, ExecError>)
        requires
            old(self).wf(),
        ensures
            final(self).wf(),
            exists|a: SystemTime, b: SystemTime|
                #![trigger reading(reading(old(clock).last, a), b)]
                {
                    let now = reading(old(clock).last, a);
                    &&& final(clock).last == reading(now, b)
                    &&& final(self)@ == after_outcome(
                        old(self)@,
                        req@,
                        elapsed_spec(t_submit, now),
                        final(clock).last / 1_000_000,
                        outcome,
                    )
                },
            match outcome {
                PlaceOutcome::Filled(_) => r == Ok::<SettledFill, ExecError>(
                    SettledFill { order_id: req.id, place_bracket: req@.has_bracket() },
                ),
                PlaceOutcome::Failed(e) => r == Err::<SettledFill, ExecError>(e),
                PlaceOutcome::TimedOut => r matches Err(e) && e@ == ExecErrorView::Timeout(
                    req.timeout_ms,
                ),
            },
    {
        let now: u64 = now_ns(clock);
        let entry_ts_ms: u64 = now_ms(clock);
        self.settle_real_at(req, t_submit, now, entry_ts_ms, outcome)
    }

    /// Admits a simulated order, or says why not. `book` is the order book's best
    /// level where the imbalance filter is on and the book is known.
    pub fn admit_simulated_at(&mut self, req: &OrderRequest, now: u64, book: Option<BookLevel>)
        -> (r: Result<SimOrder, ExecError>)
        requires
            old(self).wf(),
        ensures
            final(self).wf(),
            final(self)@ == (if old(self)@.risk.kill_switch {
                old(self)@
            } else {
                old(self)@.asked(now)
            }),
            match sim_refusal(old(self)@, req.side, now, book) {
                Some(e) => r matches Err(error) && error@ == e,
                None => r matches Ok(order) && order@ == sim_order_of(req@),
            },
    {
        if self.risk.kill_switch {
            return Err(ExecError::KillSwitch);
        }
        if !self.throttle.allow_at(now) {
            return Err(ExecError::Throttled);
        }
        let side: SimSide = match req.side {
            Side::Buy => SimSide::Long,
            Side::Sell => SimSide::Short,
        };
        if let Some(level) = book {
            if level.bid_size.is_positive() && level.ask_size.is_positive() {
                let ratio: Binary64 = match req.side {
                    Side::Buy => level.bid_over_ask,
                    Side::Sell => level.ask_over_bid,
                };
                if !level.threshold.at_most(&ratio) {
                    return Err(ExecError::ImbalanceFilter);
                }
            }
        }
        Ok(
            SimOrder {
                order_id: req.id,
                symbol: req.symbol_name.clone(),
                side,
                quantity: req.quantity,
            },
        )
    }

    /// Admits a simulated order now, or says why not.
    pub fn admit_simulated(
        &mut self,
        req: &OrderRequest,
        book: Option<BookLevel>,
        clock: &mut Clock,
    ) -> (r: Result<SimOrder, ExecError>)
        requires
            old(self).wf(),
        ensures
            final(self).wf(),
            exists|instant: SystemTime|
                final(clock).last == #[trigger] reading(old(clock).last, instant),
            final(self)@ == (if old(self)@.risk.kill_switch {
                old(self)@
            } else {
                old(self)@.asked(final(clock).last)
            }),
            match sim_refusal(old(self)@, req.side, final(clock).last, book) {
                Some(e) => r matches Err(error) && error@ == e,
                None => r matches Ok(order) && order@ == sim_order_of(req@),
            },
    {
        let now: u64 = now_ns(clock);
        self.admit_simulated_at(req, now, book)
    }

    /// Records what the simulated account did: the price at which it opened the
    /// position, if it did.
    pub fn record_simulated_at(
        &mut self,
        req: &OrderRequest,
        entry_price: Option<Binary64>,
        created_ns: u64,
    ) -> (r: Result<u64, ExecError>)
        requires
            old(self).wf(),
        ensures
            final(self).wf(),
            match entry_price {
                Some(price) => {
                    &&& r == Ok::<u64, ExecError>(req.id)
                    &&& final(self)@ == EngineView {
                        order_count: next_u64(old(self)@.order_count),
                        log: ring_push(
                            old(self)@.log,
                            open_order(req@, req.quantity, price, created_ns),
                        ),
                        ..old(self)@
                    }.opened()
                },
                None => {
                    &&& r matches Err(e)
                    &&& e@ == ExecErrorView::SimNoFill
                    &&& final(self)@ == old(self)@
                },
            },
    {
        match entry_price {
            Some(price) => {
                self.order_count = self.order_count.wrapping_add(1);
                self.add_position();
                self.order_log.push(Order::opened(req, req.quantity, price, created_ns));
                Ok(req.id)
            },
            None => Err(ExecError::SimNoFill),
        }
    }

    /// Records what the simulated account has just done.
    pub fn record_simulated(
        &mut self,
        req: &OrderRequest,
        entry_price: Option<Binary64>,
        clock: &mut Clock,
    ) -> (r: Result<u64, ExecError>)
        requires
            old(self).wf(),
        ensures
            final(self).wf(),
            exists|instant: SystemTime|
                final(clock).last == #[trigger] reading(old(clock).last, instant),
            match entry_price {
                Some(price) => {
                    &&& r == Ok::<u64, ExecError>(req.id)
                    &&& final(self)@ == EngineView {
                        order_count: next_u64(old(self)@.order_count),
                        log: ring_push(
                            old(self)@.log,
                            open_order(req@, req.quantity, price, final(clock).last),
                        ),
                        ..old(self)@
                    }.opened()
                },
                None => {
                    &&& r matches Err(e)
                    &&& e@ == ExecErrorView::SimNoFill
                    &&& final(self)@ == old(self)@
                },
            },
    {
        let created_ns: u64 = now_ns(clock);
        self.record_simulated_at(req, entry_price, created_ns)
    }

    /// Forgets the log, as a reset of the simulated account asks for.
    pub fn reset_sim(&mut self)
        requires
            old(self).wf(),
        ensures
            final(self).wf(),
            final(self)@ == (EngineView { log: Seq::empty(), ..old(self)@ }),
    {
        self.order_log.clear();
    }

    /// The newest `n` orders, newest first.
    pub fn recent_orders(&self, n: usize) -> (r: Vec<Order>)
        ensures
            r@.map_values(|o: Order| o@) == newest_first(self@.log, n as nat),
    {
        self.order_log.recent(n)
    }

    /// Records how the newest order with the given id was closed.
    pub fn record_exit(
        &mut self,
        order_id: u64,
        exit_price: Binary64,
        exit_reason: &str,
        pnl: Binary64,
    )
        requires
            old(self).wf(),
        ensures
            final(self).wf(),
            final(self)@ == (EngineView {
                log: log_exit(old(self)@.log, order_id, exit_price, exit_reason@, pnl),
                ..old(self)@
            }),
    {
        self.order_log.update_exit(order_id, exit_price, exit_reason, pnl);
    }

    /// The log of recent orders.
    pub fn order_log(&self) -> (r: &TradeRing)
        ensures
            r@ == self@.log,
    {
        &self.order_log
    }

    pub fn stats(&self) -> (r: ExecStats)
        ensures
            r == (ExecStats {
                orders: self@.order_count,
                fills: self@.fill_count,
                rejects: self@.reject_count,
                active: self@.active.len() as u64,
            }),
            r.active == self@.active.len(),
    {
        ExecStats {
            orders: self.order_count,
            fills: self.fill_count,
            rejects: self.reject_count,
            active: order_table_len(&self.active) as u64,
        }
    }

    /// Is the exchange to be asked for the account's positions? Only in real mode,
    /// while a position is tracked, and for a known account.
    pub fn poll_due(&self, simulated: bool, account: &str) -> (r: bool)
        ensures
            r == (!simulated && !self@.positions.is_empty() && account@.len() > 0),
    {
        !simulated && !no_positions(&self.real_positions) && !account.is_empty()
    }

    /// The tracked positions by the ids of the orders that opened them, in no
    /// particular order.
    pub fn real_positions(&self) -> (r: Vec<(u64, RealPosition)>)
        ensures
            r@.map_values(|e: (u64, RealPosition)| e.0).no_duplicates(),
            r@.map_values(|e: (u64, RealPosition)| e.0).to_set() == self@.positions.dom(),
            forall|i: int|
                0 <= i < r@.len() ==> (#[trigger] r@[i]).1@ == self@.positions[r@[i].0],
    {
        position_entries(&self.real_positions)
    }

    /// The tracked positions whose symbol is not among those that the exchange
    /// reports as open, in no particular order.
    pub fn closed_positions(&self, open: &Vec<String>) -> (r: Vec<(u64, String)>)
        ensures
            listed_ids(r@).no_duplicates(),
            forall|id: u64| #[trigger]
                listed_ids(r@).contains(id) <==> self@.positions.contains_key(id) && !contains_text(
                    open@,
                    self@.positions[id].symbol,
                ),
            forall|i: int|
                0 <= i < r@.len() ==> (#[trigger] r@[i]).1@ == self@.positions[r@[i].0].symbol,
    {
        let all: Vec<(u64, RealPosition)> = position_entries(&self.real_positions);
        let ghost keys = all@.map_values(|e: (u64, RealPosition)| e.0);
        let mut out: Vec<(u64, String)> = Vec::new();
        let ghost mut from: Seq<int> = Seq::empty();
        let mut i: usize = 0;
        while i < all.len()
            invariant
                i <= all@.len(),
                keys == all@.map_values(|e: (u64, RealPosition)| e.0),
                keys.no_duplicates(),
                from.len() == out@.len(),
                forall|j: int|
                    0 <= j < from.len() ==> 0 <= (#[trigger] from[j]) < i && out@[j].0
                        == all@[from[j]].0 && out@[j].1@ == all@[from[j]].1@.symbol && !contains_text(
                        open@,
                        all@[from[j]].1@.symbol,
                    ),
                forall|j: int, k: int|
                    0 <= j < k < from.len() ==> (#[trigger] from[j]) < (#[trigger] from[k]),
                forall|m: int|
                    0 <= m < i && !contains_text(open@, (#[trigger] all@[m]).1@.symbol) ==> exists|j: int|
                        0 <= j < from.len() && #[trigger] from[j] == m,
            decreases all@.len() - i,
        {
            let ghost before = from;
            if !has_text(open, all[i].1.symbol.as_str()) {
                out.push((all[i].0, all[i].1.symbol.clone()));
                proof {
                    from = from.push(i as int);
                    assert(from[before.len() as int] == i);
                }
            }
            assert forall|m: int|
                0 <= m < i + 1 && !contains_text(
                    open@,
                    (#[trigger] all@[m]).1@.symbol,
                ) implies exists|j: int| 0 <= j < from.len() && #[trigger] from[j] == m by {
                if m < i {
                    let j = choose|j: int| 0 <= j < before.len() && #[trigger] before[j] == m;
                    assert(from[j] == m);
                }
            }
            i += 1;
        }
        proof {
            let ids = listed_ids(out@);
            assert forall|j: int, k: int| 0 <= j < k < ids.len() implies ids[j] != ids[k] by {
                assert(from[j] < from[k]);
                assert(keys[from[j]] != keys[from[k]]);
            }
            assert(ids.no_duplicates());
            assert forall|id: u64| #[trigger]
                ids.contains(id) <==> self@.positions.contains_key(id) && !contains_text(
                    open@,
                    self@.positions[id].symbol,
                ) by {
                if ids.contains(id) {
                    let j = choose|j: int| 0 <= j < ids.len() && ids[j] == id;
                    let m = from[j];
                    assert(keys[m] == id);
                    assert(keys.to_set().contains(id));
                    assert(all@[m].1@ == self@.positions[all@[m].0]);
                }
                if self@.positions.contains_key(id) && !contains_text(
                    open@,
                    self@.positions[id].symbol,
                ) {
                    assert(keys.to_set().contains(id));
                    let m = choose|m: int| 0 <= m < keys.len() && keys[m] == id;
                    assert(all@[m].0 == id);
                    assert(all@[m].1@ == self@.positions[all@[m].0]);
                    let j = choose|j: int| 0 <= j < from.len() && #[trigger] from[j] == m;
                    assert(ids[j] == id);
                }
            }
            assert forall|j: int| 0 <= j < out@.len() implies (#[trigger] out@[j]).1@
                == self@.positions[out@[j].0].symbol by {
                let m = from[j];
                assert(all@[m].1@ == self@.positions[all@[m].0]);
            }
        }
        out
    }

    /// Takes a position that the exchange no longer holds off the books, with the
    /// market price at that time.
    pub fn close_position(&mut self, order_id: u64, market: Binary64) -> (r: Option<ClosedPosition>)
        requires
            old(self).wf(),
        ensures
            final(self).wf(),
            final(self)@ == after_close(old(self)@, order_id),
            match r {
                Some(c) => old(self)@.positions.contains_key(order_id) && closes_as(
                    c,
                    old(self)@.positions[order_id],
                    market,
                ),
                None => !old(self)@.positions.contains_key(order_id),
            },
    {
        let ghost s = self@;
        match remove_position(&mut self.real_positions, order_id) {
            Some((_, position)) => {
                self.drop_position();
                let exit_reason: ExitReason = exit_reason_of(&position, &market);
                let exit_price: Binary64 = match exit_reason {
                    ExitReason::TakeProfit => position.tp_price,
                    ExitReason::StopLoss => position.sl_price,
                };
                let (pnl_minuend, pnl_subtrahend): (Binary64, Binary64) = match position.side {
                    Side::Buy => (exit_price, position.entry_price),
                    Side::Sell => (position.entry_price, exit_price),
                };
                Some(
                    ClosedPosition { position, exit_price, exit_reason, pnl_minuend, pnl_subtrahend },
                )
            },
            None => {
                assert(self@.positions =~= s.positions);
                None
            },
        }
    }

    /// Takes several positions off the books, one after the other, each with its
    /// market price. The result has an entry for each, none where no position was
    /// tracked under the id.
    pub fn close_positions(&mut self, marks: &Vec<(u64, Binary64)>) -> (r: Vec<
        Option<ClosedPosition>,
    >)
        requires
            old(self).wf(),
        ensures
            final(self).wf(),
            final(self)@ == after_closes(old(self)@, marked_ids(marks@)),
            r@.len() == marks@.len(),
            forall|i: int|
                0 <= i < r@.len() ==> {
                    let s = after_closes(old(self)@, marked_ids(marks@).take(i));
                    match #[trigger] r@[i] {
                        Some(c) => s.positions.contains_key(marks@[i].0) && closes_as(
                            c,
                            s.positions[marks@[i].0],
                            marks@[i].1,
                        ),
                        None => !s.positions.contains_key(marks@[i].0),
                    }
                },
    {
        let ghost s = self@;
        let ghost ids = marked_ids(marks@);
        let mut out: Vec<Option<ClosedPosition>> = Vec::new();
        let mut i: usize = 0;
        assert(ids.take(0) =~= Seq::<u64>::empty());
        while i < marks.len()
            invariant
                i <= marks@.len(),
                ids == marked_ids(marks@),
                self.wf(),
                self@ == after_closes(s, ids.take(i as int)),
                out@.len() == i,
                forall|j: int|
                    0 <= j < i ==> {
                        let t = after_closes(s, ids.take(j));
                        match #[trigger] out@[j] {
                            Some(c) => t.positions.contains_key(marks@[j].0) && closes_as(
                                c,
                                t.positions[marks@[j].0],
                                marks@[j].1,
                            ),
                            None => !t.positions.contains_key(marks@[j].0),
                        }
                    },
            decreases marks@.len() - i,
        {
            let (order_id, market): (u64, Binary64) = marks[i];
            let closed: Option<ClosedPosition> = self.close_position(order_id, market);
            out.push(closed);
            assert(ids.take(i + 1).drop_last() =~= ids.take(i as int));
            assert(ids.take(i + 1).last() == order_id);
            i += 1;
        }
        assert(ids.take(i as int) =~= ids);
        out
    }

    /// Cancels every order in flight and forgets every position. In which order the
    /// orders reach the log is left open.
    pub fn emergency_close_all(&mut self)
        requires
            old(self).wf(),
        ensures
            final(self).wf(),
            exists|ids: Seq<u64>|
                {
                    &&& ids.no_duplicates()
                    &&& ids.to_set() == old(self)@.active.dom()
                    &&& final(self)@ == EngineView {
                        active: Map::empty(),
                        log: #[trigger] log_cancelled(old(self)@.log, old(self)@.active, ids),
                        positions: Map::empty(),
                        risk: RiskState { open_positions: 0, ..old(self)@.risk },
                        ..old(self)@
                    }
                },
    {
        let ghost s = self@;
        let ids: Vec<u64> = order_ids(&self.active);
        let mut i: usize = 0;
        assert(ids@.take(0) =~= Seq::<u64>::empty());
        while i < ids.len()
            invariant
                i <= ids@.len(),
                ids@.no_duplicates(),
                ids@.to_set() == s.active.dom(),
                self@.wf(),
                self@.log == log_cancelled(s.log, s.active, ids@.take(i as int)),
                self@ == (EngineView { active: self@.active, log: self@.log, ..s }),
                forall|id: u64|
                    #![trigger self@.active.contains_key(id)]
                    self@.active.contains_key(id) <==> s.active.contains_key(id)
                        && !ids@.take(i as int).contains(id),
                forall|id: u64|
                    #![trigger self@.active[id]]
                    self@.active.contains_key(id) ==> self@.active[id] == s.active[id],
            decreases ids@.len() - i,
        {
            let ghost before = self@;
            let id: u64 = ids[i];
            proof {
                assert(ids@.to_set().contains(ids@[i as int]));
                assert(s.active.contains_key(id));
                assert(!ids@.take(i as int).contains(id)) by {
                    if ids@.take(i as int).contains(id) {
                        let k = choose|k: int|
                            0 <= k < i && #[trigger] ids@.take(i as int)[k] == id;
                        assert(ids@[k] == ids@[i as int]);
                    }
                }
                assert(before.active.contains_key(id));
                assert(before.active[id] == s.active[id]);
                assert(ids@.take(i + 1).drop_last() =~= ids@.take(i as int));
                assert(ids@.take(i + 1).last() == id);
                assert(ids@.take(i + 1) =~= ids@.take(i as int).push(id));
            }
            match remove_order(&mut self.active, id) {
                Some((_, found)) => {
                    let mut order: Order = found;
                    order.status = OrderStatus::Cancelled;
                    self.order_log.push(order);
                },
                None => {},
            }
            proof {
                assert forall|k: u64| #![trigger self@.active.contains_key(k)]
                    self@.active.contains_key(k) <==> s.active.contains_key(k) && !ids@.take(
                        i + 1,
                    ).contains(k) by {
                    let t = ids@.take(i as int);
                    assert(t.push(id).contains(k) <==> t.contains(k) || k == id) by {
                        if t.contains(k) {
                            let n = choose|n: int| 0 <= n < t.len() && t[n] == k;
                            assert(t.push(id)[n] == k);
                        }
                        assert(t.push(id)[t.len() as int] == id);
                    }
                    assert(before.active.contains_key(k) <==> s.active.contains_key(k)
                        && !t.contains(k));
                }
            }
            i += 1;
        }
        proof {
            assert(ids@.take(i as int) =~= ids@);
            assert forall|id: u64| !self@.active.contains_key(id) by {
                if s.active.contains_key(id) {
                    assert(ids@.to_set().contains(id));
                }
            }
        }
        clear_positions(&mut self.real_positions);
        self.risk.open_positions = 0;
        assert(self@.active =~= Map::empty());
        assert(self@.positions =~= Map::empty());
        assert(self@ =~= EngineView {
            active: Map::empty(),
            log: log_cancelled(s.log, s.active, ids@),
            positions: Map::empty(),
            risk: RiskState { open_positions: 0, ..s.risk },
            ..s
        });
    }
}

} // verus!
