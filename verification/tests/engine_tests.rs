use sikapa_execution::binary64::Binary64;
use sikapa_execution::clock::Clock;
use sikapa_execution::engine::ExecutionEngine;
use sikapa_execution::error::ExecError;
use sikapa_execution::order::{OrderRequest, OrderStatus, Side};
use sikapa_execution::pricing::Instrument;
use sikapa_execution::replies::FillError;
use sikapa_execution::signing::SignError;
use sikapa_execution::state::{
    BookLevel, ExecStats, ExitReason, PlaceOutcome, RiskState, SimSide, Sizing,
};

fn num(x: f64) -> Binary64 {
    Binary64::from_bits(x.to_bits())
}

fn engine() -> ExecutionEngine {
    ExecutionEngine::new_at(RiskState { kill_switch: false, open_positions: 0 }, 1_000)
}

fn request(id: u64, symbol: &str, side: Side) -> OrderRequest {
    let mut counter = id;
    OrderRequest::new(&mut counter, symbol, side, num(0.2158), num(100.0), 750)
}

fn sizing() -> Sizing<'static> {
    let instruments = vec![Instrument { symbol: "xyz:SP500".to_string(), lot_size: num(0.0) }];
    Sizing {
        notional: num(21.58),
        limit: num(1000.0),
        instruments: Box::leak(Box::new(instruments)),
        nearest_multiple: num(0.22),
        lot_text: "0.01",
    }
}

fn send(engine: &mut ExecutionEngine, req: OrderRequest) -> OrderRequest {
    engine.admit_real_at(req, 2_000, 3_000, sizing()).unwrap()
}

#[test]
fn fresh_engine_is_empty() {
    let e = ExecutionEngine::new(RiskState { kill_switch: true, open_positions: 4 }, &mut Clock::new());
    assert_eq!(e.stats(), ExecStats { orders: 0, fills: 0, rejects: 0, active: 0 });
    assert_eq!(e.risk(), RiskState { kill_switch: true, open_positions: 4 });
    assert!(e.recent_orders(10).is_empty());
    assert_eq!(e.order_log().len(), 0);
}

#[test]
fn admitted_order_is_in_flight() {
    let mut e = engine();
    let sent = send(&mut e, request(5, "ETH", Side::Buy));
    assert_eq!(sent.id, 5);
    assert_eq!(sent.quantity, num(0.22));
    assert_eq!(sent.price, num(100.0));
    assert_eq!(e.stats(), ExecStats { orders: 1, fills: 0, rejects: 0, active: 1 });
    assert_eq!(e.risk().open_positions, 1);
    assert!(e.recent_orders(10).is_empty());
}

#[test]
fn kill_switch_refuses_everything() {
    let mut e = engine();
    e.set_risk(RiskState { kill_switch: true, open_positions: 2 });
    let r = e.admit_real_at(request(1, "ETH", Side::Buy), 0, 3_000, sizing());
    assert!(matches!(r, Err(ExecError::KillSwitch)));
    let r = e.admit_simulated_at(&request(1, "ETH", Side::Buy), 3_000, None);
    assert!(matches!(r, Err(ExecError::KillSwitch)));
    assert_eq!(e.risk(), RiskState { kill_switch: true, open_positions: 2 });
    assert_eq!(e.stats().orders, 0);
}

#[test]
fn throttle_refuses_the_fifty_first() {
    let mut e = engine();
    for id in 0..50 {
        send(&mut e, request(id, "ETH", Side::Buy));
    }
    let r = e.admit_real_at(request(50, "ETH", Side::Buy), 0, 3_000, sizing());
    assert!(matches!(r, Err(ExecError::Throttled)));
    assert_eq!(e.stats().active, 50);
    let r = e.admit_real_at(request(51, "ETH", Side::Buy), 0, 1_000_001_000, sizing());
    assert!(r.is_ok());
}

#[test]
fn size_limits() {
    let mut e = engine();
    let too_big = Sizing { notional: num(1000.1), ..sizing() };
    let r = e.admit_real_at(request(1, "ETH", Side::Buy), 0, 3_000, too_big);
    assert!(matches!(r, Err(ExecError::RiskSize)));
    let at_limit = Sizing { notional: num(1000.0), ..sizing() };
    assert!(e.admit_real_at(request(2, "ETH", Side::Buy), 0, 3_000, at_limit).is_ok());
    let nothing = Sizing { nearest_multiple: num(0.0), ..sizing() };
    match e.admit_real_at(request(3, "ETH", Side::Buy), 0, 3_000, nothing) {
        Err(error) => assert_eq!(
            error.message(""),
            "INVALID_SIZE: rounded qty is zero for lot_size=0.01"
        ),
        Ok(_) => panic!("admitted"),
    }
    assert_eq!(e.stats().orders, 1);
    assert_eq!(e.risk().open_positions, 1);
}

#[test]
fn quantity_is_rounded_by_the_lot_size_of_the_symbol() {
    let mut e = engine();
    assert_eq!(send(&mut e, request(1, "ETH", Side::Buy)).quantity, num(0.22));
    assert_eq!(send(&mut e, request(2, "xyz:SP50", Side::Buy)).quantity, num(0.22));
    assert_eq!(send(&mut e, request(3, "xyz:SP500", Side::Buy)).quantity, num(0.2158));
    let none = Sizing { nearest_multiple: num(-0.0), ..sizing() };
    assert!(e.admit_real_at(request(4, "ETH", Side::Buy), 0, 3_000, none).is_err());
    let none = Sizing { nearest_multiple: num(0.0), ..sizing() };
    let sent = e.admit_real_at(request(5, "xyz:SP500", Side::Buy), 0, 3_000, none);
    assert_eq!(sent.unwrap().quantity, num(0.2158));
}

#[test]
fn plain_fill_is_logged() {
    let mut e = engine();
    let sent = send(&mut e, request(5, "ETH", Side::Buy));
    let r = e.settle_real_at(&sent, 2_000, 9_000, 42, PlaceOutcome::Filled(num(101.5)));
    let fill = r.unwrap();
    assert_eq!(fill.order_id, 5);
    assert!(!fill.place_bracket);
    assert_eq!(e.stats(), ExecStats { orders: 1, fills: 1, rejects: 0, active: 0 });
    assert_eq!(e.risk().open_positions, 0);
    let logged = &e.recent_orders(1)[0];
    assert_eq!(logged.id, 5);
    assert_eq!(logged.status, OrderStatus::Filled);
    assert_eq!(logged.quantity, num(0.22));
    assert_eq!(logged.filled_qty, num(0.22));
    assert_eq!(logged.filled_price, num(101.5));
    assert_eq!(logged.created_ns, 2_000);
    assert_eq!(logged.latency_ns, 7_000);
    assert!(!e.poll_due(false, "0xabc"));
}

#[test]
fn failures_are_rejections() {
    let mut e = engine();
    let sent = send(&mut e, request(5, "ETH", Side::Buy));
    let failed = PlaceOutcome::Failed(ExecError::Fill(FillError::Resting));
    let r = e.settle_real_at(&sent, 2_000, 9_000, 42, failed);
    assert!(matches!(r, Err(ExecError::Fill(FillError::Resting))));
    let sent = send(&mut e, request(6, "ETH", Side::Buy));
    let r = e.settle_real_at(&sent, 2_000, 9_500, 42, PlaceOutcome::TimedOut);
    assert!(matches!(r, Err(ExecError::Timeout(750))));
    assert_eq!(e.stats(), ExecStats { orders: 2, fills: 0, rejects: 2, active: 0 });
    assert_eq!(e.risk().open_positions, 0);
    let log = e.recent_orders(5);
    assert_eq!(log.len(), 2);
    assert_eq!(log[0].id, 6);
    assert_eq!(log[0].status, OrderStatus::Rejected);
    assert_eq!(log[0].latency_ns, 7_500);
    assert_eq!(log[0].filled_qty, num(0.0));
}

#[test]
fn bracketed_fill_is_tracked_until_closed() {
    let mut e = engine();
    let req = request(5, "xyz:BRENTOIL", Side::Buy).with_bracket(num(110.0), num(95.0));
    let sent = send(&mut e, req);
    let r = e.settle_real_at(&sent, 2_000, 9_000, 42, PlaceOutcome::Filled(num(101.5)));
    assert!(r.unwrap().place_bracket);
    assert_eq!(e.risk().open_positions, 1);
    assert!(e.poll_due(false, "0xabc"));
    assert!(!e.poll_due(true, "0xabc"));
    assert!(!e.poll_due(false, ""));
    assert!(e.closed_positions(&vec!["xyz:BRENTOIL".to_string()]).is_empty());
    let closed = e.closed_positions(&vec!["xyz:BREN".to_string()]);
    assert_eq!(closed, vec![(5, "xyz:BRENTOIL".to_string())]);
    let c = e.close_position(5, num(111.0)).unwrap();
    assert_eq!(c.position.entry_price, num(101.5));
    assert_eq!(c.position.quantity, num(0.22));
    assert_eq!(c.position.entry_ts_ms, 42);
    assert_eq!(c.exit_reason, ExitReason::TakeProfit);
    assert_eq!(c.exit_reason.as_str(), "TP");
    assert_eq!(c.exit_price, num(110.0));
    assert_eq!(c.pnl_minuend, num(110.0));
    assert_eq!(c.pnl_subtrahend, num(101.5));
    assert_eq!(e.risk().open_positions, 0);
    assert!(e.close_position(5, num(111.0)).is_none());
    assert_eq!(e.risk().open_positions, 0);
    e.record_exit(5, c.exit_price, c.exit_reason.as_str(), num(1.87));
    let logged = &e.recent_orders(1)[0];
    assert_eq!(logged.exit_price, num(110.0));
    assert_eq!(logged.exit_reason, "TP");
    assert_eq!(logged.pnl, num(1.87));
}

fn close_at(side: Side, tp: f64, sl: f64, market: f64) -> (ExitReason, Binary64, Binary64) {
    let mut e = engine();
    let req = request(5, "ETH", side).with_bracket(num(tp), num(sl));
    let sent = send(&mut e, req);
    e.settle_real_at(&sent, 0, 0, 0, PlaceOutcome::Filled(num(100.0))).unwrap();
    let c = e.close_position(5, num(market)).unwrap();
    (c.exit_reason, c.exit_price, c.pnl_minuend)
}

#[test]
fn exits_follow_the_market() {
    let tp = ExitReason::TakeProfit;
    let sl = ExitReason::StopLoss;
    assert_eq!(close_at(Side::Buy, 110.0, 95.0, 110.0), (tp, num(110.0), num(110.0)));
    assert_eq!(close_at(Side::Buy, 110.0, 95.0, 109.9), (sl, num(95.0), num(95.0)));
    assert_eq!(close_at(Side::Buy, 110.0, 95.0, 50.0), (sl, num(95.0), num(95.0)));
    assert_eq!(close_at(Side::Sell, 90.0, 105.0, 90.0), (tp, num(90.0), num(100.0)));
    assert_eq!(close_at(Side::Sell, 90.0, 105.0, 90.1), (sl, num(105.0), num(100.0)));
    assert_eq!(close_at(Side::Sell, 90.0, 105.0, 200.0), (sl, num(105.0), num(100.0)));
    assert_eq!(close_at(Side::Buy, 110.0, 95.0, 0.0), (tp, num(110.0), num(110.0)));
}

#[test]
fn several_positions_of_one_symbol_close_together() {
    let mut e = engine();
    for (id, symbol) in [(1, "ETH"), (2, "ETH"), (3, "SOL")] {
        let req = request(id, symbol, Side::Sell).with_bracket(num(90.0), num(105.0));
        let sent = send(&mut e, req);
        e.settle_real_at(&sent, 0, 0, 0, PlaceOutcome::Filled(num(100.0))).unwrap();
    }
    let mut ids: Vec<u64> =
        e.closed_positions(&vec!["SOL".to_string()]).iter().map(|c| c.0).collect();
    ids.sort();
    assert_eq!(ids, vec![1, 2]);
    assert_eq!(e.closed_positions(&Vec::new()).len(), 3);
    assert_eq!(e.risk().open_positions, 3);
}

#[test]
fn pass_closes_what_is_no_longer_reported() {
    let mut e = engine();
    for (id, symbol) in [(1, "ETH"), (2, "SOL"), (3, "ETH"), (4, "ARB")] {
        let req = request(id, symbol, Side::Buy).with_bracket(num(110.0), num(95.0));
        let sent = send(&mut e, req);
        e.settle_real_at(&sent, 0, 0, 0, PlaceOutcome::Filled(num(100.0))).unwrap();
    }
    let open = vec!["SOL".to_string()];
    let marks: Vec<(u64, Binary64)> =
        e.closed_positions(&open).iter().map(|c| (c.0, num(100.0 + 10.0 * c.0 as f64))).collect();
    assert_eq!(marks.len(), 3);
    let closed = e.close_positions(&marks);
    assert_eq!(closed.len(), 3);
    for (mark, c) in marks.iter().zip(closed) {
        let c = c.unwrap();
        assert_eq!(c.position.symbol, if mark.0 == 4 { "ARB" } else { "ETH" });
        assert_eq!(c.exit_reason, ExitReason::TakeProfit);
    }
    assert_eq!(e.risk().open_positions, 1);
    let held = e.real_positions();
    assert_eq!(held.len(), 1);
    assert_eq!(held[0].0, 2);
    assert!(e.closed_positions(&open).is_empty());
    let again = e.close_positions(&vec![(1, num(1.0)), (2, num(1.0)), (2, num(1.0))]);
    assert!(again[0].is_none());
    assert_eq!(again[1].as_ref().unwrap().exit_reason, ExitReason::StopLoss);
    assert!(again[2].is_none());
    assert_eq!(e.risk().open_positions, 0);
}

#[test]
fn emergency_close_of_more_than_the_log_holds() {
    let mut e = engine();
    for id in 0..520u64 {
        let now = 3_000 + (id / 50) * 1_000_000_000;
        e.admit_real_at(request(id, "ETH", Side::Buy), id, now, sizing()).unwrap();
    }
    e.emergency_close_all();
    let log = e.recent_orders(1000);
    assert_eq!(log.len(), 500);
    assert!(log.iter().all(|o| o.status == OrderStatus::Cancelled && o.created_ns == o.id));
    let mut ids: Vec<u64> = log.iter().map(|o| o.id).collect();
    ids.sort();
    ids.dedup();
    assert_eq!(ids.len(), 500);
    assert_eq!(e.stats().active, 0);
}

#[test]
fn emergency_close_cancels_everything() {
    let mut e = engine();
    let req = request(9, "SOL", Side::Buy).with_bracket(num(110.0), num(95.0));
    let sent = send(&mut e, req);
    e.settle_real_at(&sent, 0, 0, 0, PlaceOutcome::Filled(num(100.0))).unwrap();
    for id in 1..=3 {
        send(&mut e, request(id, "ETH", Side::Buy));
    }
    assert_eq!(e.risk().open_positions, 4);
    e.emergency_close_all();
    assert_eq!(e.risk().open_positions, 0);
    assert_eq!(e.stats().active, 0);
    assert!(!e.poll_due(false, "0xabc"));
    let log = e.recent_orders(10);
    assert_eq!(log.len(), 4);
    let mut ids: Vec<u64> = log[..3].iter().map(|o| o.id).collect();
    ids.sort();
    assert_eq!(ids, vec![1, 2, 3]);
    assert!(log[..3].iter().all(|o| o.status == OrderStatus::Cancelled));
    assert_eq!(log[3].status, OrderStatus::Filled);
}

#[test]
fn late_outcome_after_an_emergency_close() {
    let mut e = engine();
    let sent = send(&mut e, request(1, "ETH", Side::Buy));
    e.emergency_close_all();
    e.on_reject(sent.id, 5);
    assert_eq!(e.risk().open_positions, u32::MAX);
    assert_eq!(e.stats().rejects, 1);
    assert_eq!(e.order_log().len(), 1);
}

#[test]
fn every_order_is_in_flight_filled_or_rejected() {
    let mut e = engine();
    for id in 1..=9 {
        let sent = send(&mut e, request(id, "ETH", Side::Buy));
        if id % 3 == 0 {
            e.settle_real_at(&sent, 0, 0, 0, PlaceOutcome::Filled(num(1.0))).unwrap();
        } else if id % 3 == 1 {
            assert!(e.settle_real_at(&sent, 0, 0, 0, PlaceOutcome::TimedOut).is_err());
        }
        let s = e.stats();
        assert_eq!(s.orders, s.fills + s.rejects + s.active);
        assert_eq!(e.risk().open_positions as u64, s.active);
    }
    assert_eq!(e.stats(), ExecStats { orders: 9, fills: 3, rejects: 3, active: 3 });
}

#[test]
fn fills_by_hand() {
    let mut e = engine();
    send(&mut e, request(1, "ETH", Side::Buy));
    e.on_fill(1, num(99.0), num(0.2), 12, true);
    assert_eq!(e.risk().open_positions, 1);
    e.on_fill(1, num(99.0), num(0.2), 12, false);
    assert_eq!(e.risk().open_positions, 0);
    assert_eq!(e.stats(), ExecStats { orders: 1, fills: 2, rejects: 0, active: 0 });
    assert_eq!(e.order_log().len(), 1);
}

fn book(bid: f64, ask: f64, threshold: f64) -> Option<BookLevel> {
    Some(BookLevel {
        bid_size: num(bid),
        ask_size: num(ask),
        bid_over_ask: num(bid / ask),
        ask_over_bid: num(ask / bid),
        threshold: num(threshold),
    })
}

#[test]
fn imbalance_filter() {
    let mut e = engine();
    let buy = request(1, "ETH", Side::Buy);
    let sell = request(2, "ETH", Side::Sell);
    assert!(e.admit_simulated_at(&buy, 3_000, book(12.0, 10.0, 1.2)).is_ok());
    let r = e.admit_simulated_at(&sell, 3_000, book(12.0, 10.0, 1.2));
    assert!(matches!(r, Err(ExecError::ImbalanceFilter)));
    let r = e.admit_simulated_at(&buy, 3_000, book(11.0, 10.0, 1.2));
    assert!(matches!(r, Err(ExecError::ImbalanceFilter)));
    assert!(e.admit_simulated_at(&sell, 3_000, book(10.0, 15.0, 1.2)).is_ok());
    assert!(e.admit_simulated_at(&buy, 3_000, book(0.0, 10.0, 1.2)).is_ok());
    assert!(e.admit_simulated_at(&buy, 3_000, None).is_ok());
}

#[test]
fn simulated_orders() {
    let mut e = engine();
    let req = request(3, "SOL", Side::Sell);
    let order = e.admit_simulated_at(&req, 3_000, None).unwrap();
    assert_eq!(order.order_id, 3);
    assert_eq!(order.symbol, "SOL");
    assert_eq!(order.side, SimSide::Short);
    assert_eq!(order.quantity, num(0.2158));
    assert_eq!(e.record_simulated_at(&req, Some(num(99.5)), 4_000).unwrap(), 3);
    assert_eq!(e.stats(), ExecStats { orders: 1, fills: 0, rejects: 0, active: 0 });
    assert_eq!(e.risk().open_positions, 1);
    let logged = &e.recent_orders(1)[0];
    assert_eq!(logged.status, OrderStatus::Open);
    assert_eq!(logged.filled_qty, num(0.2158));
    assert_eq!(logged.filled_price, num(99.5));
    assert_eq!(logged.created_ns, 4_000);
    let r = e.record_simulated_at(&req, None, 5_000);
    assert!(matches!(r, Err(ExecError::SimNoFill)));
    assert_eq!(e.stats().orders, 1);
    e.reset_sim();
    assert!(e.recent_orders(5).is_empty());
    assert_eq!(e.risk().open_positions, 1);
}

#[test]
fn simulated_orders_keep_the_whole_symbol() {
    let mut e = engine();
    let mut counter = 8;
    let req = OrderRequest::new(&mut counter, "xyz:SP500", Side::Buy, num(1.0), num(100.0), 500);
    let order = e.admit_simulated_at(&req, 3_000, None).unwrap();
    assert_eq!(order.order_id, 8);
    assert_eq!(order.symbol, "xyz:SP500");
    assert_eq!(order.side, SimSide::Long);
    assert_eq!(order.quantity, num(1.0));
    let order = e.admit_simulated(&req, None, &mut Clock::new()).unwrap();
    assert_eq!(order.symbol, "xyz:SP500");
}

#[test]
fn submissions_on_the_wall_clock() {
    let mut clock = Clock::new();
    let risk = RiskState { kill_switch: false, open_positions: 0 };
    let mut e = ExecutionEngine::new(risk, &mut clock);
    let start = clock.last;
    assert!(start > 0);
    let req = request(1, "ETH", Side::Buy).with_bracket(num(9.0), num(5.0));
    let admitted = e.admit_real(req, sizing(), &mut clock).unwrap();
    assert_eq!(admitted.request.quantity, num(0.22));
    assert!(start <= admitted.t_submit && admitted.t_submit <= clock.last);
    let outcome = PlaceOutcome::Filled(num(7.0));
    let r = e.settle_real(&admitted.request, admitted.t_submit, outcome, &mut clock);
    assert_eq!(r.unwrap().order_id, 1);
    let logged = &e.recent_orders(1)[0];
    assert_eq!(logged.created_ns, admitted.t_submit);
    assert!(logged.latency_ns <= clock.last - admitted.t_submit);
    assert_eq!(e.real_positions()[0].1.entry_ts_ms, clock.last / 1_000_000);
    let req = request(2, "ETH", Side::Buy);
    assert_eq!(e.admit_simulated(&req, None, &mut clock).unwrap().side, SimSide::Long);
    assert_eq!(e.record_simulated(&req, Some(num(7.5)), &mut clock).unwrap(), 2);
    assert_eq!(e.recent_orders(1)[0].created_ns, clock.last);
}

#[test]
fn tracked_positions_can_be_read() {
    let mut e = engine();
    assert!(e.real_positions().is_empty());
    for (id, symbol) in [(4, "xyz:SP500"), (6, "SOL")] {
        let req = request(id, symbol, Side::Sell).with_bracket(num(90.0), num(105.0));
        let sent = send(&mut e, req);
        e.settle_real_at(&sent, 0, 0, 31, PlaceOutcome::Filled(num(100.0))).unwrap();
    }
    let mut held = e.real_positions();
    held.sort_by_key(|p| p.0);
    assert_eq!(held.len(), 2);
    assert_eq!(held[0].0, 4);
    assert_eq!(held[0].1.symbol, "xyz:SP500");
    assert_eq!(held[0].1.side, Side::Sell);
    assert_eq!(held[0].1.entry_price, num(100.0));
    assert_eq!(held[0].1.quantity, num(0.2158));
    assert_eq!(held[1].1.quantity, num(0.22));
    assert_eq!(held[0].1.tp_price, num(90.0));
    assert_eq!(held[0].1.sl_price, num(105.0));
    assert_eq!(held[0].1.entry_ts_ms, 31);
    assert_eq!(held[1].1.symbol, "SOL");
}

#[test]
fn error_messages() {
    assert_eq!(ExecError::KillSwitch.message(""), "KS");
    assert_eq!(ExecError::Throttled.message(""), "THROTTLE");
    assert_eq!(ExecError::RiskSize.message(""), "RISK_SIZE");
    assert_eq!(ExecError::ImbalanceFilter.message(""), "OB_IMBALANCE_FILTER");
    assert_eq!(
        ExecError::SimNoFill.message(""),
        "SIM_NO_FILL: max positions or insufficient balance"
    );
    assert_eq!(ExecError::Timeout(1500).message(""), "TIMEOUT_1500ms");
    assert_eq!(
        ExecError::Sign(SignError::SecretLength).message(""),
        "HL secret must be 32 bytes"
    );
    assert_eq!(ExecError::Fill(FillError::Exchange).message("oops"), "HL error: oops");
    assert_eq!(ExecError::Transport("gone".to_string()).message(""), "gone");
}
