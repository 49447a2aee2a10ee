//! What holds of the engine over several events.
use crate::binary64::Binary64;
use crate::error::ExecErrorView;
use crate::order::{OrderRequestView, OrderStatus, OrderView, RealPositionView, Side};
use crate::state::{
    after_close, after_closes, after_outcome, after_real_request, cancelled, exit_of, log_cancelled, real_refusal,
    sim_refusal,
};
use crate::state::{BookLevel, EngineView, ExitReason, PlaceOutcome, RiskState, Sizing};
use crate::text::contains_text;
use crate::trade_ring::{log_exit, newest_with_id, exited, ring_push, RING_CAPACITY};
use vstd::prelude::*;

verus! {

/// How far the count of open positions is ahead of the orders in flight and the
/// positions tracked, modulo 2^32. Positions that others opened make it positive.
pub open spec fn foreign_positions(s: EngineView) -> int {
    (s.risk.open_positions - s.active.len() - s.positions.len()) % 0x1_0000_0000
}

/// A request for a real order, admitted or not, keeps the count of open positions
/// in step with what is in flight and tracked. The id must not be in flight yet.
pub proof fn law_request_keeps_count(
    s: EngineView,
    req: OrderRequestView,
    t_submit: u64,
    now: u64,
    sizing: Sizing,
)
    requires
        s.wf(),
        !s.active.contains_key(req.id),
    ensures
        foreign_positions(after_real_request(s, req, t_submit, now, sizing)) == foreign_positions(s),
{
    let t = after_real_request(s, req, t_submit, now, sizing);
    if !s.risk.kill_switch && real_refusal(s, req, now, sizing) is None {
        assert(t.active.dom() =~= s.active.dom().insert(req.id));
        assert(t.active.len() == s.active.len() + 1);
    }
}

/// Whatever becomes of an order in flight, settling it keeps the count of open
/// positions in step. The id must not be tracked yet.
pub proof fn law_outcome_keeps_count(
    s: EngineView,
    req: OrderRequestView,
    latency_ns: u64,
    entry_ts_ms: u64,
    outcome: PlaceOutcome,
)
    requires
        s.wf(),
        s.active.contains_key(req.id),
        !s.positions.contains_key(req.id),
    ensures
        foreign_positions(after_outcome(s, req, latency_ns, entry_ts_ms, outcome))
            == foreign_positions(s),
{
    let t = after_outcome(s, req, latency_ns, entry_ts_ms, outcome);
    assert(t.active.dom() =~= s.active.dom().remove(req.id));
    assert(t.active.len() == s.active.len() - 1);
    if outcome is Filled && req.has_bracket() {
        assert(t.positions.dom() =~= s.positions.dom().insert(req.id));
        assert(t.positions.len() == s.positions.len() + 1);
    }
}

/// Closing a tracked position keeps the count of open positions in step.
pub proof fn law_close_keeps_count(s: EngineView, id: u64)
    requires
        s.wf(),
        s.positions.contains_key(id),
    ensures
        foreign_positions(after_close(s, id)) == foreign_positions(s),
{
    let p = s.positions.remove(id);
    assert(p.dom() =~= s.positions.dom().remove(id));
    assert(p.len() == s.positions.len() - 1);
}

/// Closing tracked positions one after the other takes exactly those off the books
/// and as many off the count, and touches nothing else.
pub proof fn law_closes_take_exactly(s: EngineView, ids: Seq<u64>)
    requires
        ids.no_duplicates(),
        forall|i: int| 0 <= i < ids.len() ==> s.positions.contains_key(#[trigger] ids[i]),
    ensures
        after_closes(s, ids) == (EngineView {
            positions: s.positions.remove_keys(ids.to_set()),
            risk: RiskState {
                open_positions: ((s.risk.open_positions - ids.len()) % 0x1_0000_0000) as u32,
                ..s.risk
            },
            ..s
        }),
    decreases ids.len(),
{
    if ids.len() == 0 {
        assert(s.positions.remove_keys(ids.to_set()) =~= s.positions);
    } else {
        let rest = ids.drop_last();
        let last = ids.last();
        assert forall|i: int| 0 <= i < rest.len() implies s.positions.contains_key(
            #[trigger] rest[i],
        ) by {
            assert(rest[i] == ids[i]);
        }
        law_closes_take_exactly(s, rest);
        assert(!rest.contains(last));
        assert(ids =~= rest.push(last));
        assert forall|id: u64| #[trigger] ids.to_set().contains(id) <==> rest.to_set().contains(id)
            || id == last by {
            if rest.contains(id) {
                let k = choose|k: int| 0 <= k < rest.len() && rest[k] == id;
                assert(ids[k] == id);
            }
            assert(ids[ids.len() - 1] == last);
        }
        let before = s.positions.remove_keys(rest.to_set());
        assert(s.positions.contains_key(ids[ids.len() - 1]));
        assert(before.contains_key(last));
        assert(before.remove(last) =~= s.positions.remove_keys(ids.to_set()));
    }
}

/// One pass over the account's open symbols, which closes every tracked position
/// whose symbol is not among them: of the tracked positions exactly those whose
/// symbol is still reported stay, unchanged; as many as were closed come off the
/// count; and the count stays in step.
pub proof fn law_pass_keeps_reported_positions(s: EngineView, open: Seq<String>, ids: Seq<u64>)
    requires
        s.wf(),
        ids.no_duplicates(),
        forall|id: u64| #[trigger]
            ids.contains(id) <==> s.positions.contains_key(id) && !contains_text(
                open,
                s.positions[id].symbol,
            ),
    ensures
        ({
            let t = after_closes(s, ids);
            &&& t == EngineView { positions: t.positions, risk: t.risk, ..s }
            &&& t.risk.kill_switch == s.risk.kill_switch
            &&& t.risk.open_positions == (s.risk.open_positions - ids.len()) % 0x1_0000_0000
            &&& foreign_positions(t) == foreign_positions(s)
            &&& forall|id: u64| #[trigger]
                t.positions.contains_key(id) <==> s.positions.contains_key(id) && contains_text(
                    open,
                    s.positions[id].symbol,
                )
            &&& forall|id: u64|
                t.positions.contains_key(id) ==> #[trigger] t.positions[id] == s.positions[id]
        }),
{
    let t = after_closes(s, ids);
    assert forall|i: int| 0 <= i < ids.len() implies s.positions.contains_key(
        #[trigger] ids[i],
    ) by {
        assert(ids.contains(ids[i]));
    }
    law_closes_take_exactly(s, ids);
    assert forall|id: u64| #[trigger] t.positions.contains_key(id) <==> s.positions.contains_key(id)
        && contains_text(open, s.positions[id].symbol) by {
        assert(ids.to_set().contains(id) <==> ids.contains(id));
    }
    lemma_closes_keep_count(s, ids);
}

proof fn lemma_closes_keep_count(s: EngineView, ids: Seq<u64>)
    requires
        s.wf(),
        ids.no_duplicates(),
        forall|i: int| 0 <= i < ids.len() ==> s.positions.contains_key(#[trigger] ids[i]),
    ensures
        foreign_positions(after_closes(s, ids)) == foreign_positions(s),
        after_closes(s, ids).wf(),
    decreases ids.len(),
{
    if ids.len() > 0 {
        let rest = ids.drop_last();
        assert forall|i: int| 0 <= i < rest.len() implies s.positions.contains_key(
            #[trigger] rest[i],
        ) by {
            assert(rest[i] == ids[i]);
        }
        lemma_closes_keep_count(s, rest);
        law_closes_take_exactly(s, rest);
        let before = after_closes(s, rest);
        assert(!rest.contains(ids.last()));
        assert(s.positions.contains_key(ids[ids.len() - 1]));
        assert(before.positions.contains_key(ids.last()));
        law_close_keeps_count(before, ids.last());
    }
}

/// How many of the orders counted are neither in flight nor counted as filled or
/// rejected, modulo 2^64.
pub open spec fn otherwise_ended(s: EngineView) -> int {
    (s.order_count - s.fill_count - s.reject_count - s.active.len()) % 0x1_0000_0000_0000_0000
}

/// A request for a real order is counted exactly if the order is then in flight.
pub proof fn law_request_is_counted(
    s: EngineView,
    req: OrderRequestView,
    t_submit: u64,
    now: u64,
    sizing: Sizing,
)
    requires
        s.wf(),
        !s.active.contains_key(req.id),
    ensures
        otherwise_ended(after_real_request(s, req, t_submit, now, sizing)) == otherwise_ended(s),
{
    let t = after_real_request(s, req, t_submit, now, sizing);
    if !s.risk.kill_switch && real_refusal(s, req, now, sizing) is None {
        assert(t.active.dom() =~= s.active.dom().insert(req.id));
        assert(t.active.len() == s.active.len() + 1);
    }
}

/// An order in flight ends as one fill or as one rejection.
pub proof fn law_outcome_is_counted_once(
    s: EngineView,
    req: OrderRequestView,
    latency_ns: u64,
    entry_ts_ms: u64,
    outcome: PlaceOutcome,
)
    requires
        s.wf(),
        s.active.contains_key(req.id),
    ensures
        otherwise_ended(after_outcome(s, req, latency_ns, entry_ts_ms, outcome))
            == otherwise_ended(s),
{
    let t = after_outcome(s, req, latency_ns, entry_ts_ms, outcome);
    assert(t.active.dom() =~= s.active.dom().remove(req.id));
    assert(t.active.len() == s.active.len() - 1);
}

/// After an emergency close nothing is in flight or tracked, and no position is
/// counted.
pub proof fn law_emergency_clears_count(s: EngineView, ids: Seq<u64>)
    ensures
        foreign_positions(
            EngineView {
                active: Map::empty(),
                log: log_cancelled(s.log, s.active, ids),
                positions: Map::empty(),
                risk: RiskState { open_positions: 0, ..s.risk },
                ..s
            },
        ) == 0,
{
    assert(Map::<u64, OrderView>::empty().len() == 0);
    assert(Map::<u64, RealPositionView>::empty().len() == 0);
}

/// While the kill switch is on, no order is admitted, real or simulated.
pub proof fn law_kill_switch_stops_orders(
    s: EngineView,
    req: OrderRequestView,
    now: u64,
    sizing: Sizing,
    book: Option<BookLevel>,
)
    requires
        s.risk.kill_switch,
    ensures
        real_refusal(s, req, now, sizing) == Some(ExecErrorView::KillSwitch),
        sim_refusal(s, req.side, now, book) == Some(ExecErrorView::KillSwitch),
{
}

/// A refused request leaves orders, log, positions and counts as they were; under
/// the kill switch it leaves everything as it was.
pub proof fn law_refusal_leaves_books(
    s: EngineView,
    req: OrderRequestView,
    t_submit: u64,
    now: u64,
    sizing: Sizing,
)
    requires
        real_refusal(s, req, now, sizing) is Some,
    ensures
        after_real_request(s, req, t_submit, now, sizing) == (EngineView {
            throttle: after_real_request(s, req, t_submit, now, sizing).throttle,
            ..s
        }),
        s.risk.kill_switch ==> after_real_request(s, req, t_submit, now, sizing) == s,
{
}

/// An order that was admitted and then not filled is in the books only as a
/// rejected entry of the log: what was in flight, tracked and counted as open
/// before is so again.
pub proof fn law_rejection_undoes_admission(
    s: EngineView,
    req: OrderRequestView,
    t_submit: u64,
    now: u64,
    sizing: Sizing,
    latency_ns: u64,
    entry_ts_ms: u64,
    outcome: PlaceOutcome,
)
    requires
        !s.active.contains_key(req.id),
        real_refusal(s, req, now, sizing) is None,
        !(outcome is Filled),
    ensures
        ({
            let sent = req.with_quantity(sizing.rounded(req));
            let t = after_outcome(
                after_real_request(s, req, t_submit, now, sizing),
                sent,
                latency_ns,
                entry_ts_ms,
                outcome,
            );
            &&& t.active == s.active
            &&& t.positions == s.positions
            &&& t.risk == s.risk
            &&& t.fill_count == s.fill_count
            &&& t.log.len() > 0
            &&& t.log.last().id == req.id
            &&& t.log.last().status == OrderStatus::Rejected
            &&& t.log.last().created_ns == t_submit
            &&& t.log.last().latency_ns == latency_ns
        }),
{
    let sent = req.with_quantity(sizing.rounded(req));
    let a = after_real_request(s, req, t_submit, now, sizing);
    let t = after_outcome(a, sent, latency_ns, entry_ts_ms, outcome);
    assert(t.active =~= s.active);
}

/// An order that was admitted and filled without a bracket leaves flight, is
/// logged as filled at its price and rounded quantity, and counts as open no
/// longer.
pub proof fn law_plain_fill(
    s: EngineView,
    req: OrderRequestView,
    t_submit: u64,
    now: u64,
    sizing: Sizing,
    latency_ns: u64,
    entry_ts_ms: u64,
    price: Binary64,
)
    requires
        !s.active.contains_key(req.id),
        real_refusal(s, req, now, sizing) is None,
        !req.has_bracket(),
    ensures
        ({
            let sent = req.with_quantity(sizing.rounded(req));
            let t = after_outcome(
                after_real_request(s, req, t_submit, now, sizing),
                sent,
                latency_ns,
                entry_ts_ms,
                PlaceOutcome::Filled(price),
            );
            &&& t.active == s.active
            &&& t.positions == s.positions
            &&& t.risk == s.risk
            &&& t.log.len() > 0
            &&& t.log.last().id == req.id
            &&& t.log.last().status == OrderStatus::Filled
            &&& t.log.last().filled_price == price
            &&& t.log.last().filled_qty == sizing.rounded(req)
        }),
{
    let sent = req.with_quantity(sizing.rounded(req));
    let a = after_real_request(s, req, t_submit, now, sizing);
    let t = after_outcome(a, sent, latency_ns, entry_ts_ms, PlaceOutcome::Filled(price));
    assert(t.active =~= s.active);
}

/// An order that was admitted and filled with a bracket counts as open until its
/// position is closed; closing it then brings the tables and the count back, and
/// its exit is recorded on its own entry of the log.
pub proof fn law_bracketed_fill_and_close(
    s: EngineView,
    req: OrderRequestView,
    t_submit: u64,
    now: u64,
    sizing: Sizing,
    latency_ns: u64,
    entry_ts_ms: u64,
    price: Binary64,
    exit_price: Binary64,
    exit_reason: Seq<char>,
    pnl: Binary64,
)
    requires
        !s.active.contains_key(req.id),
        !s.positions.contains_key(req.id),
        real_refusal(s, req, now, sizing) is None,
        req.has_bracket(),
    ensures
        ({
            let sent = req.with_quantity(sizing.rounded(req));
            let t = after_outcome(
                after_real_request(s, req, t_submit, now, sizing),
                sent,
                latency_ns,
                entry_ts_ms,
                PlaceOutcome::Filled(price),
            );
            let c = after_close(t, req.id);
            &&& t.active == s.active
            &&& t.positions.contains_key(req.id)
            &&& t.risk == s.opened().risk
            &&& c.positions == s.positions
            &&& c.risk == s.risk
            &&& c.log == t.log
            &&& t.log.len() > 0
            &&& log_exit(t.log, req.id, exit_price, exit_reason, pnl) == t.log.update(
                t.log.len() - 1,
                exited(t.log.last(), exit_price, exit_reason, pnl),
            )
        }),
{
    let sent = req.with_quantity(sizing.rounded(req));
    let a = after_real_request(s, req, t_submit, now, sizing);
    let t = after_outcome(a, sent, latency_ns, entry_ts_ms, PlaceOutcome::Filled(price));
    assert(t.active =~= s.active);
    assert(t.positions.remove(req.id) =~= s.positions);
    assert(newest_with_id(t.log, req.id) == Some(t.log.len() - 1));
}

/// The log after cancelling any number of orders: it ends in the last of them, as
/// many as the ring holds, each as it was in flight but cancelled, in the order
/// given. Entry `i` is one of those.
pub proof fn law_cancelled_orders_are_logged(
    log: Seq<OrderView>,
    active: Map<u64, OrderView>,
    ids: Seq<u64>,
    i: int,
)
    requires
        0 <= i < ids.len(),
        ids.len() - i <= RING_CAPACITY,
        log.len() <= RING_CAPACITY,
    ensures
        ids.len() - i <= log_cancelled(log, active, ids).len() <= RING_CAPACITY,
        log_cancelled(log, active, ids)[log_cancelled(log, active, ids).len() - (ids.len() - i)]
            == cancelled(active[ids[i]]),
    decreases ids.len(),
{
    let rest = ids.drop_last();
    lemma_log_cancelled_len(log, active, rest);
    let before = log_cancelled(log, active, rest);
    let after = log_cancelled(log, active, ids);
    assert(after == ring_push(before, cancelled(active[ids.last()])));
    if i < rest.len() {
        law_cancelled_orders_are_logged(log, active, rest, i);
        assert(rest[i] == ids[i]);
    }
}

/// Cancelling at least as many orders as the ring holds leaves exactly the last of
/// them in the log, in the order given.
pub proof fn law_cancelled_orders_fill_the_log(
    log: Seq<OrderView>,
    active: Map<u64, OrderView>,
    ids: Seq<u64>,
)
    requires
        ids.len() >= RING_CAPACITY,
        log.len() <= RING_CAPACITY,
    ensures
        log_cancelled(log, active, ids) == Seq::new(
            RING_CAPACITY as nat,
            |k: int| cancelled(active[ids[ids.len() - RING_CAPACITY + k]]),
        ),
{
    let after = log_cancelled(log, active, ids);
    let last = Seq::new(
        RING_CAPACITY as nat,
        |k: int| cancelled(active[ids[ids.len() - RING_CAPACITY + k]]),
    );
    lemma_log_cancelled_len(log, active, ids);
    assert forall|k: int| 0 <= k < RING_CAPACITY implies after[k] == last[k] by {
        law_cancelled_orders_are_logged(log, active, ids, ids.len() - RING_CAPACITY + k);
    }
    assert(after =~= last);
}

proof fn lemma_log_cancelled_len(log: Seq<OrderView>, active: Map<u64, OrderView>, ids: Seq<u64>)
    requires
        log.len() <= RING_CAPACITY,
    ensures
        log_cancelled(log, active, ids).len() == (if log.len() + ids.len() <= RING_CAPACITY {
            log.len() + ids.len()
        } else {
            RING_CAPACITY as nat
        }),
    decreases ids.len(),
{
    if ids.len() > 0 {
        lemma_log_cancelled_len(log, active, ids.drop_last());
    }
}

/// With both bracket prices set on their proper sides and a market price at hand,
/// a market at or beyond the take-profit price means the take profit, and one at or
/// beyond the stop-loss price means the stop loss, however far it has jumped.
pub proof fn law_exit_follows_market(position: RealPositionView, market: Binary64)
    requires
        position.tp_price.positive(),
        position.sl_price.positive(),
        market.positive(),
        position.side == Side::Buy ==> position.sl_price.lt_spec(position.tp_price),
        position.side == Side::Sell ==> position.tp_price.lt_spec(position.sl_price),
    ensures
        position.side == Side::Buy && position.tp_price.le_spec(market) ==> exit_of(
            position,
            market,
        ) == ExitReason::TakeProfit,
        position.side == Side::Buy && market.le_spec(position.sl_price) ==> exit_of(
            position,
            market,
        ) == ExitReason::StopLoss,
        position.side == Side::Sell && market.le_spec(position.tp_price) ==> exit_of(
            position,
            market,
        ) == ExitReason::TakeProfit,
        position.side == Side::Sell && position.sl_price.le_spec(market) ==> exit_of(
            position,
            market,
        ) == ExitReason::StopLoss,
{
}

} // verus!
