//! What each event leaves in the engine's books, entry by entry.
use crate::binary64::Binary64;
use crate::order::{open_order, OrderRequestView, OrderStatus, OrderView, RealPositionView};
use crate::state::{
    after_close, after_outcome, after_real_request, cancelled, fresh_engine, listed_ids, marked_ids,
    next_u32, next_u64, opened_position, prior_u32, real_refusal, EngineView,
};
use crate::state::{PlaceOutcome, RiskState, Sizing};
use vstd::prelude::*;

verus! {

/// The counts go up and down by one, and wrap at their ends only.
pub proof fn law_counts_step_by_one(n: u64, m: u32)
    ensures
        n < u64::MAX ==> next_u64(n) == n + 1,
        next_u64(u64::MAX) == 0,
        m < u32::MAX ==> next_u32(m) == m + 1,
        next_u32(u32::MAX) == 0,
        m > 0 ==> prior_u32(m) == m - 1,
        prior_u32(0) == u32::MAX,
        prior_u32(next_u32(m)) == m,
        next_u32(prior_u32(m)) == m,
{
}

/// A fresh engine has nothing in flight, logged, tracked or counted, and may let
/// fifty orders through before a second has passed.
pub proof fn law_fresh_engine_is_empty(risk: RiskState, now: u64, id: u64)
    ensures
        !fresh_engine(risk, now).active.contains_key(id),
        !fresh_engine(risk, now).positions.contains_key(id),
        fresh_engine(risk, now).log.len() == 0,
        fresh_engine(risk, now).order_count == 0,
        fresh_engine(risk, now).fill_count == 0,
        fresh_engine(risk, now).reject_count == 0,
        fresh_engine(risk, now).risk == risk,
        fresh_engine(risk, now).throttle.tokens == 50,
        fresh_engine(risk, now).throttle.max_per_sec == 50,
        fresh_engine(risk, now).throttle.window_ns == now,
        fresh_engine(risk, now).wf(),
{
}

/// An engine is well formed exactly if its log and its throttle keep within their
/// limits and its tables are finite.
pub proof fn law_well_formed(s: EngineView)
    ensures
        s.wf() <==> s.log.len() <= 500 && s.throttle.tokens <= s.throttle.max_per_sec
            && s.active.dom().finite() && s.positions.dom().finite(),
{
}

/// An admitted request is in flight with its rounded quantity and nothing filled,
/// created when it was submitted; every other order in flight stays; one more order
/// and one more position are counted, and one token is gone. Nothing else changes.
pub proof fn law_admission_enters_flight(
    s: EngineView,
    req: OrderRequestView,
    t_submit: u64,
    now: u64,
    sizing: Sizing,
    other: u64,
)
    requires
        real_refusal(s, req, now, sizing) is None,
        other != req.id,
    ensures
        ({
            let t = after_real_request(s, req, t_submit, now, sizing);
            let o = t.active[req.id];
            let zero = Binary64 { bits: 0 };
            &&& t.active.contains_key(req.id)
            &&& o.id == req.id
            &&& o.symbol == req.symbol
            &&& o.side == req.side
            &&& o.quantity == sizing.rounded(req)
            &&& o.price == req.price
            &&& o.status == OrderStatus::Open
            &&& o.filled_qty == zero
            &&& o.filled_price == zero
            &&& o.created_ns == t_submit
            &&& o.latency_ns == 0
            &&& o.pnl == zero
            &&& o.exit_price == zero
            &&& o.exit_reason.len() == 0
            &&& t.active.contains_key(other) == s.active.contains_key(other)
            &&& s.active.contains_key(other) ==> t.active[other] == s.active[other]
            &&& t.order_count == next_u64(s.order_count)
            &&& t.risk.open_positions == next_u32(s.risk.open_positions)
            &&& t.risk.kill_switch == s.risk.kill_switch
            &&& t.throttle == s.throttle.after(now)
            &&& t.log == s.log
            &&& t.positions == s.positions
            &&& t.fill_count == s.fill_count
            &&& t.reject_count == s.reject_count
        }),
{
}

/// A refused request changes the throttle alone, and that only while the kill switch
/// is off.
pub proof fn law_refusal_only_asks_the_throttle(
    s: EngineView,
    req: OrderRequestView,
    t_submit: u64,
    now: u64,
    sizing: Sizing,
)
    requires
        real_refusal(s, req, now, sizing) is Some,
    ensures
        after_real_request(s, req, t_submit, now, sizing) == (EngineView {
            throttle: if s.risk.kill_switch {
                s.throttle
            } else {
                s.throttle.after(now)
            },
            ..s
        }),
{
}

/// A filled order leaves flight for the end of the log, as it was in flight but
/// filled at the price and for the quantity that was sent; the log before it loses
/// at most its oldest entry. One more fill is counted. A position with a bracket is
/// tracked under the order's id and stays counted; one without is counted off.
pub proof fn law_fill_moves_order_to_log(
    s: EngineView,
    req: OrderRequestView,
    latency_ns: u64,
    entry_ts_ms: u64,
    price: Binary64,
    other: u64,
)
    requires
        s.wf(),
        s.active.contains_key(req.id),
        other != req.id,
    ensures
        ({
            let t = after_outcome(s, req, latency_ns, entry_ts_ms, PlaceOutcome::Filled(price));
            let was = s.active[req.id];
            let o = t.log.last();
            &&& !t.active.contains_key(req.id)
            &&& t.active.contains_key(other) == s.active.contains_key(other)
            &&& s.active.contains_key(other) ==> t.active[other] == s.active[other]
            &&& t.log.len() == (if s.log.len() == 500 {
                500
            } else {
                s.log.len() + 1
            })
            &&& t.log.drop_last() == (if s.log.len() == 500 {
                s.log.skip(1)
            } else {
                s.log
            })
            &&& o.id == was.id
            &&& o.symbol == was.symbol
            &&& o.side == was.side
            &&& o.quantity == was.quantity
            &&& o.price == was.price
            &&& o.status == OrderStatus::Filled
            &&& o.filled_qty == req.quantity
            &&& o.filled_price == price
            &&& o.created_ns == was.created_ns
            &&& o.latency_ns == latency_ns
            &&& o.pnl == was.pnl
            &&& o.exit_price == was.exit_price
            &&& o.exit_reason == was.exit_reason
            &&& t.fill_count == next_u64(s.fill_count)
            &&& t.reject_count == s.reject_count
            &&& t.order_count == s.order_count
            &&& t.throttle == s.throttle
            &&& t.risk.kill_switch == s.risk.kill_switch
            &&& t.positions.contains_key(other) == s.positions.contains_key(other)
            &&& s.positions.contains_key(other) ==> t.positions[other] == s.positions[other]
            &&& if req.tp_price.positive() && req.sl_price.positive() {
                &&& t.risk.open_positions == s.risk.open_positions
                &&& t.positions.contains_key(req.id)
                &&& t.positions[req.id].symbol == req.symbol_name
                &&& t.positions[req.id].side == req.side
                &&& t.positions[req.id].entry_price == price
                &&& t.positions[req.id].quantity == req.quantity
                &&& t.positions[req.id].tp_price == req.tp_price
                &&& t.positions[req.id].sl_price == req.sl_price
                &&& t.positions[req.id].entry_ts_ms == entry_ts_ms
            } else {
                &&& t.risk.open_positions == prior_u32(s.risk.open_positions)
                &&& t.positions == s.positions
            }
        }),
{
    let t = after_outcome(s, req, latency_ns, entry_ts_ms, PlaceOutcome::Filled(price));
    if s.log.len() == 500 {
        assert(t.log.drop_last() =~= s.log.skip(1));
    } else {
        assert(t.log.drop_last() =~= s.log);
    }
}

/// An order that failed or timed out leaves flight for the end of the log, as it was
/// in flight but rejected; one more rejection is counted and one position less.
/// Nothing else changes.
pub proof fn law_rejection_moves_order_to_log(
    s: EngineView,
    req: OrderRequestView,
    latency_ns: u64,
    entry_ts_ms: u64,
    outcome: PlaceOutcome,
    other: u64,
)
    requires
        s.wf(),
        s.active.contains_key(req.id),
        other != req.id,
        !(outcome is Filled),
    ensures
        ({
            let t = after_outcome(s, req, latency_ns, entry_ts_ms, outcome);
            let was = s.active[req.id];
            let o = t.log.last();
            &&& !t.active.contains_key(req.id)
            &&& t.active.contains_key(other) == s.active.contains_key(other)
            &&& s.active.contains_key(other) ==> t.active[other] == s.active[other]
            &&& t.log.len() == (if s.log.len() == 500 {
                500
            } else {
                s.log.len() + 1
            })
            &&& t.log.drop_last() == (if s.log.len() == 500 {
                s.log.skip(1)
            } else {
                s.log
            })
            &&& o.id == was.id
            &&& o.symbol == was.symbol
            &&& o.side == was.side
            &&& o.quantity == was.quantity
            &&& o.price == was.price
            &&& o.status == OrderStatus::Rejected
            &&& o.filled_qty == was.filled_qty
            &&& o.filled_price == was.filled_price
            &&& o.created_ns == was.created_ns
            &&& o.latency_ns == latency_ns
            &&& o.pnl == was.pnl
            &&& o.exit_price == was.exit_price
            &&& o.exit_reason == was.exit_reason
            &&& t.reject_count == next_u64(s.reject_count)
            &&& t.fill_count == s.fill_count
            &&& t.order_count == s.order_count
            &&& t.throttle == s.throttle
            &&& t.positions == s.positions
            &&& t.risk.kill_switch == s.risk.kill_switch
            &&& t.risk.open_positions == prior_u32(s.risk.open_positions)
        }),
{
    let t = after_outcome(s, req, latency_ns, entry_ts_ms, outcome);
    if s.log.len() == 500 {
        assert(t.log.drop_last() =~= s.log.skip(1));
    } else {
        assert(t.log.drop_last() =~= s.log);
    }
}

/// Settling an order that is no longer in flight leaves the table and the log as
/// they are, and is counted all the same.
pub proof fn law_late_outcome_is_only_counted(
    s: EngineView,
    req: OrderRequestView,
    latency_ns: u64,
    entry_ts_ms: u64,
    outcome: PlaceOutcome,
)
    requires
        !s.active.contains_key(req.id),
    ensures
        ({
            let t = after_outcome(s, req, latency_ns, entry_ts_ms, outcome);
            &&& t.active == s.active
            &&& t.log == s.log
            &&& outcome is Filled ==> t.fill_count == next_u64(s.fill_count) && t.reject_count
                == s.reject_count
            &&& !(outcome is Filled) ==> t.reject_count == next_u64(s.reject_count)
                && t.fill_count == s.fill_count && t.positions == s.positions
                && t.risk.open_positions == prior_u32(s.risk.open_positions)
        }),
{
    let t = after_outcome(s, req, latency_ns, entry_ts_ms, outcome);
    assert(t.active =~= s.active);
}

/// Recording a fill or a rejection by itself does to the books what settling does,
/// and tracks nothing. Only a fill that keeps its position open leaves the count.
pub proof fn law_fill_and_rejection_by_hand(
    s: EngineView,
    id: u64,
    price: Binary64,
    qty: Binary64,
    latency_ns: u64,
    keep_open: bool,
)
    requires
        s.wf(),
        s.active.contains_key(id),
    ensures
        ({
            let was = s.active[id];
            let f = s.filled(id, price, qty, latency_ns, keep_open);
            let r = s.rejected(id, latency_ns);
            &&& f.active == s.active.remove(id)
            &&& r.active == s.active.remove(id)
            &&& f.log.last() == (OrderView {
                status: OrderStatus::Filled,
                filled_qty: qty,
                filled_price: price,
                latency_ns,
                ..was
            })
            &&& r.log.last() == (OrderView { status: OrderStatus::Rejected, latency_ns, ..was })
            &&& f.positions == s.positions
            &&& r.positions == s.positions
            &&& f.fill_count == next_u64(s.fill_count)
            &&& f.reject_count == s.reject_count
            &&& r.reject_count == next_u64(s.reject_count)
            &&& r.fill_count == s.fill_count
            &&& f.risk.open_positions == (if keep_open {
                s.risk.open_positions
            } else {
                prior_u32(s.risk.open_positions)
            })
            &&& r.risk.open_positions == prior_u32(s.risk.open_positions)
            &&& f.risk.kill_switch == s.risk.kill_switch
            &&& r.risk.kill_switch == s.risk.kill_switch
            &&& f.order_count == s.order_count
            &&& r.order_count == s.order_count
            &&& f.throttle == s.throttle
            &&& r.throttle == s.throttle
        }),
{
}

/// Without an order in flight, a fill or a rejection by hand is only counted.
pub proof fn law_fill_and_rejection_of_nothing(
    s: EngineView,
    id: u64,
    price: Binary64,
    qty: Binary64,
    latency_ns: u64,
    keep_open: bool,
)
    requires
        !s.active.contains_key(id),
    ensures
        s.filled(id, price, qty, latency_ns, keep_open) == (EngineView {
            fill_count: next_u64(s.fill_count),
            risk: RiskState {
                open_positions: if keep_open {
                    s.risk.open_positions
                } else {
                    prior_u32(s.risk.open_positions)
                },
                ..s.risk
            },
            ..s
        }),
        s.rejected(id, latency_ns) == (EngineView {
            reject_count: next_u64(s.reject_count),
            risk: RiskState { open_positions: prior_u32(s.risk.open_positions), ..s.risk },
            ..s
        }),
{
    assert(s.active.remove(id) =~= s.active);
}

/// One position more or less changes the count of open positions alone, and the one
/// undoes the other.
pub proof fn law_open_and_close_count(s: EngineView)
    ensures
        s.opened() == (EngineView {
            risk: RiskState { open_positions: next_u32(s.risk.open_positions), ..s.risk },
            ..s
        }),
        s.closed() == (EngineView {
            risk: RiskState { open_positions: prior_u32(s.risk.open_positions), ..s.risk },
            ..s
        }),
        s.opened().closed() == s,
        s.closed().opened() == s,
{
}

/// Asking the throttle changes nothing but the throttle.
pub proof fn law_asking_changes_the_throttle(s: EngineView, now: u64)
    ensures
        s.asked(now) == (EngineView { throttle: s.throttle.after(now), ..s }),
{
}

/// The record of a request that has just gone out shows the request, and nothing of
/// an exit.
pub proof fn law_open_order_shows_request(
    req: OrderRequestView,
    filled_qty: Binary64,
    filled_price: Binary64,
    created_ns: u64,
)
    ensures
        ({
            let o = open_order(req, filled_qty, filled_price, created_ns);
            &&& o.id == req.id
            &&& o.symbol == req.symbol
            &&& o.side == req.side
            &&& o.quantity == req.quantity
            &&& o.price == req.price
            &&& o.status == OrderStatus::Open
            &&& o.filled_qty == filled_qty
            &&& o.filled_price == filled_price
            &&& o.created_ns == created_ns
            &&& o.latency_ns == 0
            &&& o.pnl.bits == 0
            &&& o.exit_price.bits == 0
            &&& o.exit_reason.len() == 0
        }),
{
}

/// The position that a fill opens shows the request's whole symbol, side, quantity
/// and bracket, the fill's price, and when.
pub proof fn law_opened_position_shows_request(
    req: OrderRequestView,
    fill_price: Binary64,
    entry_ts_ms: u64,
)
    ensures
        opened_position(req, fill_price, entry_ts_ms) == (RealPositionView {
            symbol: req.symbol_name,
            side: req.side,
            entry_price: fill_price,
            quantity: req.quantity,
            tp_price: req.tp_price,
            sl_price: req.sl_price,
            entry_ts_ms,
        }),
{
}

/// Closing a tracked position takes it out and counts one position less; an unknown
/// id changes nothing.
pub proof fn law_close_takes_one(s: EngineView, id: u64, other: u64)
    requires
        other != id,
    ensures
        !after_close(s, id).positions.contains_key(id),
        after_close(s, id).positions.contains_key(other) == s.positions.contains_key(other),
        s.positions.contains_key(other) ==> after_close(s, id).positions[other]
            == s.positions[other],
        after_close(s, id).risk.open_positions == (if s.positions.contains_key(id) {
            prior_u32(s.risk.open_positions)
        } else {
            s.risk.open_positions
        }),
        after_close(s, id) == (EngineView {
            positions: after_close(s, id).positions,
            risk: RiskState {
                open_positions: after_close(s, id).risk.open_positions,
                ..s.risk
            },
            ..s
        }),
{
}

/// A cancelled order is the order with its status changed.
pub proof fn law_cancelling_changes_the_status(order: OrderView)
    ensures
        cancelled(order).status == OrderStatus::Cancelled,
        cancelled(order) == (OrderView { status: cancelled(order).status, ..order }),
{
}

/// The ids of a list stand in the list's order.
pub proof fn law_ids_of_lists(list: Seq<(u64, String)>, marks: Seq<(u64, Binary64)>)
    ensures
        listed_ids(list).len() == list.len(),
        forall|i: int| 0 <= i < list.len() ==> #[trigger] listed_ids(list)[i] == list[i].0,
        marked_ids(marks).len() == marks.len(),
        forall|i: int| 0 <= i < marks.len() ==> #[trigger] marked_ids(marks)[i] == marks[i].0,
{
}

} // verus!
