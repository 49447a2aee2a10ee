//! What callers get from the library's operations, told from the calls themselves:
//! each law speaks of what a call was given and of what it gave back.
use crate::binary64::Binary64;
use crate::bracket::{BracketRun, BracketStep};
use crate::clock::{now_ms, now_ns, reading, Clock};
use crate::engine::ExecutionEngine;
use crate::error::{ExecError, ExecErrorView};
use crate::json::{json_document, JsonTree};
use crate::number_laws::law_comparison_follows_numbers;
use crate::order::{next_order_id, symbol_to_asset_id, unpack_symbol};
use crate::order::{Order, OrderRequest, OrderStatus, OrderView, RealPosition, Side};
use crate::pricing::{ioc_price, lot_size_for_symbol, lot_size_of, round_to_lot, stop_limit_factor};
use crate::pricing::Instrument;
use crate::replies::{
    bracket_accepted, names_error, open_symbols, parse_hl_fill_price, raw_excerpt, text_view,
    FillError, FillErrorView,
};
use crate::replies::{avg_px_texts, size_texts};
use crate::reply_laws::{
    law_any_occurrence_names_error, law_excerpt_is_the_beginning, law_no_occurrence_names_no_error,
    law_open_means_any_size,
};
use crate::request_laws::{law_body_text, law_entry_text, law_leg_text};
use crate::requests::{
    build_bracket_body, clearinghouse_request, entry_action, leg_action, place_order_body,
    plan_bracket_at, BracketBodies, BracketPrices,
};
use crate::signing::{sign_spec, SignError};
use crate::state::{cancelled, exit_reason_of, log_cancelled, next_u32, next_u64, prior_u32};
use crate::state::{
    BookLevel, ClosedPosition, EngineView, ExecStats, ExitReason, PlaceOutcome, RiskState,
    SettledFill, SimOrder, SimSide, Sizing,
};
use crate::state_laws::law_cancelled_orders_are_logged;
use crate::text::{contains_text, decimal, fixed_to_wire, strip_0x, strip_0x_spec, wire_spec};
use crate::throttle::TokenBucket;
use crate::trade_ring::TradeRing;
use crate::wire::pack;
use std::time::SystemTime;
use vstd::prelude::*;
use vstd::utf8::{encode_utf8, valid_utf8};

verus! {

/// The body that places an entry has `"r":false` in it on either side, carries price
/// and quantity in the exchange's notation, and is signed over the action that it
/// carries.
pub proof fn law_place_order_body(
    secret_hex: &str,
    req: &OrderRequest,
    price_fixed: &str,
    qty_fixed: &str,
    nonce: u64,
    r: Result<String, SignError>,
)
    requires
        call_ensures(place_order_body, (secret_hex, req, price_fixed, qty_fixed, nonce), r),
        r is Ok,
    ensures
        ({
            let signature = sign_spec(
                secret_hex@,
                pack(entry_action(req@, price_fixed@, qty_fixed@)),
                nonce,
            );
            &&& signature is Ok
            &&& r->Ok_0@ == "{\"action\":"@ + ("{\"type\":\"order\",\"orders\":["@ + ("{\"a\":"@
                + decimal(req.symbol_idx as nat) + ",\"b\":"@ + (if req.side == Side::Buy {
                "true"@
            } else {
                "false"@
            }) + ",\"p\":\""@ + wire_spec(price_fixed@) + "\",\"s\":\""@ + wire_spec(qty_fixed@)
                + "\",\"r\":"@ + "false"@ + ",\"t\":"@ + ("{\"limit\":{\"tif\":\""@ + "Ioc"@
                + "\"}}"@) + "}"@) + "],\"grouping\":\"na\"}"@) + ",\"nonce\":"@ + decimal(
                nonce as nat,
            ) + ",\"signature\":"@ + signature->Ok_0 + "}"@
        }),
{
    let action = entry_action(req@, price_fixed@, qty_fixed@);
    law_entry_text(req@, price_fixed@, qty_fixed@);
    if let Ok(signature) = sign_spec(secret_hex@, pack(action), nonce) {
        law_body_text(action, nonce, signature);
    }
}

/// The body that places a bracket leg has `"r":true` in it, on the side given, and is
/// signed over the action that it carries.
pub proof fn law_build_bracket_body(
    secret_hex: &str,
    asset_id: u8,
    is_buy: bool,
    price_fixed: &str,
    limit_fixed: &str,
    qty_fixed: &str,
    nonce: u64,
    is_sl: bool,
    r: Result<String, SignError>,
)
    requires
        call_ensures(
            build_bracket_body,
            (
                secret_hex,
                asset_id,
                is_buy,
                price_fixed,
                limit_fixed,
                qty_fixed,
                nonce,
                is_sl,
            ),
            r,
        ),
        r is Ok,
    ensures
        ({
            let signature = sign_spec(
                secret_hex@,
                pack(leg_action(asset_id, is_buy, price_fixed@, limit_fixed@, qty_fixed@, is_sl)),
                nonce,
            );
            &&& signature is Ok
            &&& r->Ok_0@ == "{\"action\":"@ + ("{\"type\":\"order\",\"orders\":["@ + ("{\"a\":"@
                + decimal(asset_id as nat) + ",\"b\":"@ + (if is_buy {
                "true"@
            } else {
                "false"@
            }) + ",\"p\":\""@ + wire_spec(
                if is_sl {
                    limit_fixed@
                } else {
                    price_fixed@
                },
            ) + "\",\"s\":\""@ + wire_spec(qty_fixed@) + "\",\"r\":"@ + "true"@ + ",\"t\":"@ + (
            if is_sl {
                "{\"trigger\":{\"isMarket\":true,\"triggerPx\":\""@ + wire_spec(price_fixed@)
                    + "\",\"tpsl\":\"sl\"}}"@
            } else {
                "{\"limit\":{\"tif\":\""@ + "Gtc"@ + "\"}}"@
            }) + "}"@) + "],\"grouping\":\"na\"}"@) + ",\"nonce\":"@ + decimal(nonce as nat)
                + ",\"signature\":"@ + signature->Ok_0 + "}"@
        }),
{
    let action = leg_action(asset_id, is_buy, price_fixed@, limit_fixed@, qty_fixed@, is_sl);
    law_leg_text(asset_id, is_buy, price_fixed@, limit_fixed@, qty_fixed@);
    if let Ok(signature) = sign_spec(secret_hex@, pack(action), nonce) {
        law_body_text(action, nonce, signature);
    }
}

/// Both bodies of a bracket are those of its legs, on the side that closes the position
/// and under nonces that follow one another.
pub proof fn law_plan_bracket(
    secret_hex: &str,
    req: &OrderRequest,
    prices: BracketPrices,
    nonce: u64,
    r: Result<BracketBodies, SignError>,
    tp: Result<String, SignError>,
    sl: Result<String, SignError>,
)
    requires
        nonce < u64::MAX,
        call_ensures(plan_bracket_at, (secret_hex, req, prices, nonce), r),
        call_ensures(
            build_bracket_body,
            (
                secret_hex,
                req.symbol_idx,
                req.side == Side::Sell,
                prices.tp,
                prices.sl_limit,
                prices.quantity,
                nonce,
                false,
            ),
            tp,
        ),
        call_ensures(
            build_bracket_body,
            (
                secret_hex,
                req.symbol_idx,
                req.side == Side::Sell,
                prices.sl,
                prices.sl_limit,
                prices.quantity,
                (nonce + 1) as u64,
                true,
            ),
            sl,
        ),
    ensures
        r is Ok <==> tp is Ok && sl is Ok,
        r matches Ok(bodies) ==> bodies.tp@ == tp->Ok_0@ && bodies.sl@ == sl->Ok_0@,
        r matches Err(e) ==> e@ == (if tp is Err {
            tp->Err_0@
        } else {
            sl->Err_0@
        }),
{
}

/// The query for an account's positions.
pub proof fn law_clearinghouse_request(account: &str, r: String)
    requires
        call_ensures(clearinghouse_request, (account,), r),
    ensures
        r@ == "{\"type\":\"clearinghouseState\",\"user\":\""@ + account@ + "\"}"@,
{
    crate::request_laws::law_account_query_text(account@);
}

/// A reply that is text and holds `"error"` or `"err"` anywhere, quotes included, does
/// not take a bracket order on, whatever else stands in it; every other reply does.
pub proof fn law_bracket_accepted(bytes: &[u8], r: bool, at: int)
    requires
        call_ensures(bracket_accepted, (bytes,), r),
    ensures
        valid_utf8(bytes@) && 0 <= at && ((at + 7 <= bytes@.len() && bytes@.subrange(at, at + 7)
            == seq![0x22u8, 0x65u8, 0x72u8, 0x72u8, 0x6fu8, 0x72u8, 0x22u8]) || (at + 5
            <= bytes@.len() && bytes@.subrange(at, at + 5) == seq![
            0x22u8,
            0x65u8,
            0x72u8,
            0x72u8,
            0x22u8,
        ])) ==> !r,
        !valid_utf8(bytes@) ==> r,
        (forall|k: int|
            #![trigger bytes@.subrange(k, k + 7)]
            #![trigger bytes@.subrange(k, k + 5)]
            0 <= k ==> {
                &&& k + 7 <= bytes@.len() ==> bytes@.subrange(k, k + 7) != seq![
                    0x22u8,
                    0x65u8,
                    0x72u8,
                    0x72u8,
                    0x6fu8,
                    0x72u8,
                    0x22u8,
                ]
                &&& k + 5 <= bytes@.len() ==> bytes@.subrange(k, k + 5) != seq![
                    0x22u8,
                    0x65u8,
                    0x72u8,
                    0x72u8,
                    0x22u8,
                ]
            }) ==> r,
{
    let b = bytes@;
    if valid_utf8(b) && 0 <= at && ((at + 7 <= b.len() && b.subrange(at, at + 7) == seq![
        0x22u8,
        0x65u8,
        0x72u8,
        0x72u8,
        0x6fu8,
        0x72u8,
        0x22u8,
    ]) || (at + 5 <= b.len() && b.subrange(at, at + 5) == seq![
        0x22u8,
        0x65u8,
        0x72u8,
        0x72u8,
        0x22u8,
    ])) {
        law_any_occurrence_names_error(b, at);
    }
    if names_error(b) && (forall|k: int|
        #![trigger b.subrange(k, k + 7)]
        #![trigger b.subrange(k, k + 5)]
        0 <= k ==> {
            &&& k + 7 <= b.len() ==> b.subrange(k, k + 7) != seq![
                0x22u8,
                0x65u8,
                0x72u8,
                0x72u8,
                0x6fu8,
                0x72u8,
                0x22u8,
            ]
            &&& k + 5 <= b.len() ==> b.subrange(k, k + 5) != seq![
                0x22u8,
                0x65u8,
                0x72u8,
                0x72u8,
                0x22u8,
            ]
        }) {
        law_no_occurrence_names_no_error(b);
    }
}

/// A bracket's next step and what an attempt changes, from the calls.
pub proof fn law_bracket_run(
    run: &BracketRun,
    step: BracketStep,
    changed: &mut BracketRun,
    tp: &Option<Vec<u8>>,
    sl: &Option<Vec<u8>>,
)
    requires
        call_ensures(BracketRun::next, (run,), step),
        call_ensures(BracketRun::record, (changed, tp, sl), ()),
        old(changed).attempt < 3,
    ensures
        (run.tp_placed && run.sl_placed) || run.attempt >= 3 ==> step == (BracketStep::Done {
            tp_failed: !run.tp_placed,
            sl_failed: !run.sl_placed,
        }),
        !(run.tp_placed && run.sl_placed) && run.attempt < 3 ==> step == (BracketStep::Send {
            wait_ms: if run.attempt == 0 {
                80
            } else {
                100
            },
            tp: !run.tp_placed,
            sl: !run.sl_placed,
        }),
        final(changed).attempt == old(changed).attempt + 1,
        final(changed).tp_placed <==> old(changed).tp_placed || (*tp matches Some(body)
            && !names_error(body@)),
        final(changed).sl_placed <==> old(changed).sl_placed || (*sl matches Some(body)
            && !names_error(body@)),
{
}

/// A request is admitted exactly if the kill switch is off, the throttle grants, its
/// value does not exceed the limit, and something is left of it once rounded to the
/// lot size of its symbol; the first of these that fails is the error. None of them
/// depends on the side.
pub proof fn law_admit_real(
    e: &mut ExecutionEngine,
    req: OrderRequest,
    t_submit: u64,
    now: u64,
    sizing: Sizing,
    r: Result<OrderRequest, ExecError>,
)
    requires
        call_ensures(ExecutionEngine::admit_real_at, (e, req, t_submit, now, sizing), r),
    ensures
        ({
            let s = old(e)@;
            let t = final(e)@;
            let lot = lot_size_of(sizing.instruments@, req.symbol_name@);
            let rounded = if lot.is_nan() || lot.number() > 0 {
                sizing.nearest_multiple
            } else {
                req.quantity
            };
            let too_big = !sizing.limit.is_nan() && !sizing.notional.is_nan()
                && sizing.limit.number() < sizing.notional.number();
            let nothing_left = !rounded.is_nan() && rounded.number() <= 0;
            &&& s.risk.kill_switch ==> (r matches Err(error) && error@ == ExecErrorView::KillSwitch)
                && t == s
            &&& !s.risk.kill_switch && !s.throttle.grants(now) ==> (r matches Err(error) && error@
                == ExecErrorView::Throttled)
            &&& !s.risk.kill_switch && s.throttle.grants(now) && too_big ==> (r matches Err(error)
                && error@ == ExecErrorView::RiskSize)
            &&& !s.risk.kill_switch && s.throttle.grants(now) && !too_big && nothing_left ==> (
            r matches Err(error) && error@ == ExecErrorView::InvalidSize(sizing.lot_text@))
            &&& r is Ok <==> !s.risk.kill_switch && s.throttle.grants(now) && !too_big
                && !nothing_left
            &&& r matches Ok(sent) ==> sent@ == req@.with_quantity(rounded)
            &&& r is Err ==> t == EngineView { throttle: t.throttle, ..s }
            &&& r is Ok ==> t.active.contains_key(req.id) && t.order_count == next_u64(
                s.order_count,
            ) && t.risk.open_positions == next_u32(s.risk.open_positions) && t.log == s.log
                && t.positions == s.positions
            &&& !s.risk.kill_switch ==> t.throttle == s.throttle.after(now)
        }),
{
    let lot = lot_size_of(sizing.instruments@, req@.symbol_name);
    crate::record_laws::law_rounding_needs_a_lot(
        req@.quantity,
        lot,
        sizing.nearest_multiple,
        req@,
        sizing,
    );
    crate::number_laws::law_magnitudes_double(0);
    law_comparison_follows_numbers(sizing.limit, sizing.notional);
    crate::decision_laws::law_admission_needs_all_four(old(e)@, req@, now, sizing);
    crate::decision_laws::law_risk_limit_binds_every_request(old(e)@, req@, now, sizing);
}

/// A simulated order is admitted exactly if the kill switch is off, the throttle
/// grants, and a book with both sides filled leans the trade's way by the threshold:
/// bid over ask for a buy, ask over bid for a sale.
pub proof fn law_admit_simulated(
    e: &mut ExecutionEngine,
    req: &OrderRequest,
    now: u64,
    book: Option<BookLevel>,
    r: Result<SimOrder, ExecError>,
)
    requires
        call_ensures(ExecutionEngine::admit_simulated_at, (e, req, now, book), r),
    ensures
        ({
            let s = old(e)@;
            let filtered = book matches Some(level) && level.bid_size.positive()
                && level.ask_size.positive() && ((req.side == Side::Buy && !level.threshold.le_spec(
                level.bid_over_ask,
            )) || (req.side == Side::Sell && !level.threshold.le_spec(level.ask_over_bid)));
            &&& s.risk.kill_switch ==> (r matches Err(error) && error@ == ExecErrorView::KillSwitch)
            &&& !s.risk.kill_switch && !s.throttle.grants(now) ==> (r matches Err(error) && error@
                == ExecErrorView::Throttled)
            &&& !s.risk.kill_switch && s.throttle.grants(now) && filtered ==> (
            r matches Err(error) && error@ == ExecErrorView::ImbalanceFilter)
            &&& r is Ok <==> !s.risk.kill_switch && s.throttle.grants(now) && !filtered
            &&& r matches Ok(order) ==> order.order_id == req.id && order.symbol@
                == req.symbol_name@ && order.quantity == req.quantity && (order.side
                == SimSide::Long <==> req.side == Side::Buy)
            &&& final(e)@ == EngineView {
                throttle: if s.risk.kill_switch {
                    s.throttle
                } else {
                    s.throttle.after(now)
                },
                ..s
            }
        }),
{
}

/// What the simulated account did is recorded: a position that it opened is counted
/// and logged as an open order for the whole quantity at its entry price; one that it
/// did not open changes nothing.
pub proof fn law_record_simulated(
    e: &mut ExecutionEngine,
    req: &OrderRequest,
    entry_price: Option<Binary64>,
    created_ns: u64,
    r: Result<u64, ExecError>,
)
    requires
        old(e).wf(),
        call_ensures(
            ExecutionEngine::record_simulated_at,
            (e, req, entry_price, created_ns),
            r,
        ),
    ensures
        entry_price is None ==> final(e)@ == old(e)@ && (r matches Err(error) && error@
            == ExecErrorView::SimNoFill),
        entry_price matches Some(price) ==> ({
            let s = old(e)@;
            let t = final(e)@;
            let o = t.log.last();
            &&& r matches Ok(id)
            &&& id == req.id
            &&& t == EngineView {
                log: t.log,
                order_count: next_u64(s.order_count),
                risk: RiskState { open_positions: next_u32(s.risk.open_positions), ..s.risk },
                ..s
            }
            &&& t.log.len() == (if s.log.len() < 500 {
                s.log.len() + 1
            } else {
                500
            })
            &&& t.log.drop_last() == (if s.log.len() < 500 {
                s.log
            } else {
                s.log.skip(1)
            })
            &&& o.id == req.id
            &&& o.symbol == req.symbol@
            &&& o.side == req.side
            &&& o.quantity == req.quantity
            &&& o.price == req.price
            &&& o.status == OrderStatus::Open
            &&& o.filled_qty == req.quantity
            &&& o.filled_price == price
            &&& o.created_ns == created_ns
            &&& o.latency_ns == 0
            &&& o.exit_reason.len() == 0
        }),
{
    if let Some(price) = entry_price {
        let o = crate::order::open_order(req@, req.quantity, price, created_ns);
        crate::record_laws::law_push_keeps_the_rest(old(e)@.log, o);
    }
}

/// Settling gives the order's id for a fill and places a bracket exactly if both
/// prices are set; a failure comes back as it is, and a missing answer with the
/// request's own deadline. The latency recorded is the time since submission.
pub proof fn law_settle_real(
    e: &mut ExecutionEngine,
    req: &OrderRequest,
    t_submit: u64,
    now: u64,
    entry_ts_ms: u64,
    outcome: PlaceOutcome,
    r: Result<SettledFill, ExecError>,
)
    requires
        old(e).wf(),
        call_ensures(
            ExecutionEngine::settle_real_at,
            (e, req, t_submit, now, entry_ts_ms, outcome),
            r,
        ),
        old(e)@.active.contains_key(req.id),
        t_submit <= now,
    ensures
        ({
            let s = old(e)@;
            let t = final(e)@;
            let bracketed = req.tp_price.positive() && req.sl_price.positive();
            &&& !t.active.contains_key(req.id)
            &&& t.log.last().id == s.active[req.id].id
            &&& t.log.last().latency_ns == now - t_submit
            &&& outcome matches PlaceOutcome::Filled(price) ==> {
                &&& r matches Ok(fill)
                &&& fill.order_id == req.id
                &&& fill.place_bracket == bracketed
                &&& t.log.last().status == OrderStatus::Filled
                &&& t.log.last().filled_price == price
                &&& t.log.last().filled_qty == req.quantity
                &&& t.fill_count == next_u64(s.fill_count)
                &&& bracketed ==> t.positions.contains_key(req.id) && t.positions[req.id].symbol
                    == req.symbol_name@ && t.positions[req.id].entry_ts_ms == entry_ts_ms
                    && t.risk.open_positions == s.risk.open_positions
                &&& !bracketed ==> t.positions == s.positions && t.risk.open_positions == prior_u32(
                    s.risk.open_positions,
                )
            }
            &&& !(outcome is Filled) ==> {
                &&& r is Err
                &&& t.log.last().status == OrderStatus::Rejected
                &&& t.positions == s.positions
                &&& t.reject_count == next_u64(s.reject_count)
                &&& t.risk.open_positions == prior_u32(s.risk.open_positions)
            }
            &&& outcome matches PlaceOutcome::Failed(error) ==> r == Err::<SettledFill, ExecError>(
                error,
            )
            &&& outcome is TimedOut ==> (r matches Err(error) && error@ == ExecErrorView::Timeout(
                req.timeout_ms,
            ))
        }),
{
    let other = if req.id == 0 {
        1u64
    } else {
        0u64
    };
    let latency_ns = (now - t_submit) as u64;
    match outcome {
        PlaceOutcome::Filled(price) => {
            crate::book_laws::law_fill_moves_order_to_log(
                old(e)@,
                req@,
                latency_ns,
                entry_ts_ms,
                price,
                other,
            );
        },
        _ => {
            crate::book_laws::law_rejection_moves_order_to_log(
                old(e)@,
                req@,
                latency_ns,
                entry_ts_ms,
                outcome,
                other,
            );
        },
    }
}

/// A fill or a rejection recorded by hand.
pub proof fn law_fill_and_reject_calls(
    e: &mut ExecutionEngine,
    f: &mut ExecutionEngine,
    id: u64,
    price: Binary64,
    qty: Binary64,
    latency_ns: u64,
    keep_open: bool,
)
    requires
        old(e).wf(),
        old(f).wf(),
        old(e)@.active.contains_key(id),
        old(f)@.active.contains_key(id),
        call_ensures(ExecutionEngine::on_fill, (e, id, price, qty, latency_ns, keep_open), ()),
        call_ensures(ExecutionEngine::on_reject, (f, id, latency_ns), ()),
    ensures
        final(e)@.log.last() == (OrderView {
            status: OrderStatus::Filled,
            filled_qty: qty,
            filled_price: price,
            latency_ns,
            ..old(e)@.active[id]
        }),
        final(e)@.active == old(e)@.active.remove(id),
        final(e)@.fill_count == next_u64(old(e)@.fill_count),
        final(e)@.risk.open_positions == (if keep_open {
            old(e)@.risk.open_positions
        } else {
            prior_u32(old(e)@.risk.open_positions)
        }),
        final(f)@.log.last() == (OrderView {
            status: OrderStatus::Rejected,
            latency_ns,
            ..old(f)@.active[id]
        }),
        final(f)@.active == old(f)@.active.remove(id),
        final(f)@.reject_count == next_u64(old(f)@.reject_count),
        final(f)@.risk.open_positions == prior_u32(old(f)@.risk.open_positions),
{
    crate::book_laws::law_fill_and_rejection_by_hand(
        old(e)@,
        id,
        price,
        qty,
        latency_ns,
        keep_open,
    );
    crate::book_laws::law_fill_and_rejection_by_hand(
        old(f)@,
        id,
        price,
        qty,
        latency_ns,
        keep_open,
    );
}

/// A tracked position that is closed comes off the books and the count. With both
/// bracket prices and a market price, a long position was closed by its take profit
/// exactly if the market stands at or above that price, a short one exactly if it
/// stands at or below; the exit price is the bracket price that was reached, and the
/// profit is counted from exit to entry for the one, from entry to exit for the other.
pub proof fn law_close_position(
    e: &mut ExecutionEngine,
    id: u64,
    market: Binary64,
    r: Option<ClosedPosition>,
)
    requires
        call_ensures(ExecutionEngine::close_position, (e, id, market), r),
    ensures
        ({
            let s = old(e)@;
            let t = final(e)@;
            let p = s.positions[id];
            &&& r is Some <==> s.positions.contains_key(id)
            &&& r is None ==> t == s
            &&& r matches Some(c) ==> {
                let beyond = (p.side == Side::Buy && p.tp_price.number() <= market.number()) || (
                p.side == Side::Sell && market.number() <= p.tp_price.number());
                let known = p.tp_price.positive() && p.sl_price.positive() && market.positive();
                &&& c.position@ == p
                &&& c.exit_reason == ExitReason::TakeProfit <==> (if known {
                    beyond
                } else {
                    p.tp_price.positive()
                })
                &&& c.exit_reason == ExitReason::TakeProfit ==> c.exit_price == p.tp_price
                &&& c.exit_reason != ExitReason::TakeProfit ==> c.exit_price == p.sl_price
                &&& p.side == Side::Buy ==> c.pnl_minuend == c.exit_price && c.pnl_subtrahend
                    == p.entry_price
                &&& p.side == Side::Sell ==> c.pnl_minuend == p.entry_price && c.pnl_subtrahend
                    == c.exit_price
                &&& t.positions == s.positions.remove(id)
                &&& t.risk.open_positions == prior_u32(s.risk.open_positions)
                &&& t.risk.kill_switch == s.risk.kill_switch
                &&& t == EngineView { positions: t.positions, risk: t.risk, ..s }
            }
        }),
{
    let p = old(e)@.positions[id];
    if p.tp_price.positive() && p.sl_price.positive() && market.positive() {
        crate::decision_laws::law_take_profit_only_beyond_its_price(p, market);
    } else {
        crate::decision_laws::law_exit_without_market(p, market);
    }
}

/// The reason for which a position was closed, from the call.
pub proof fn law_exit_reason_of(position: &RealPosition, market: &Binary64, r: ExitReason)
    requires
        call_ensures(exit_reason_of, (position, market), r),
        position.tp_price.positive(),
        position.sl_price.positive(),
        market.positive(),
    ensures
        position.side == Side::Buy ==> (r == ExitReason::TakeProfit <==> position.tp_price.number()
            <= market.number()),
        position.side == Side::Sell ==> (r == ExitReason::TakeProfit <==> market.number()
            <= position.tp_price.number()),
{
    crate::decision_laws::law_take_profit_only_beyond_its_price(position@, *market);
}

/// Which tracked positions are to be closed, and when to ask for them at all.
pub proof fn law_monitor_calls(
    e: &ExecutionEngine,
    open: &Vec<String>,
    closed: Vec<(u64, String)>,
    held: Vec<(u64, RealPosition)>,
    simulated: bool,
    account: &str,
    due: bool,
    id: u64,
)
    requires
        call_ensures(ExecutionEngine::closed_positions, (e, open), closed),
        call_ensures(ExecutionEngine::real_positions, (e,), held),
        call_ensures(ExecutionEngine::poll_due, (e, simulated, account), due),
    ensures
        (exists|i: int| 0 <= i < closed@.len() && (#[trigger] closed@[i]).0 == id)
            <==> e@.positions.contains_key(id) && !contains_text(open@, e@.positions[id].symbol),
        (exists|i: int|
            0 <= i < held@.len() && (#[trigger] held@[i]).0 == id && held@[i].1@
                == e@.positions[id]) <==> e@.positions.contains_key(id),
        e@.positions.contains_key(id) ==> (due <==> !simulated && account@.len() > 0),
        due ==> !simulated && account@.len() > 0,
        e@.positions.is_empty() ==> !due,
{
    let ids = crate::state::listed_ids(closed@);
    assert(ids.contains(id) <==> e@.positions.contains_key(id) && !contains_text(
        open@,
        e@.positions[id].symbol,
    ));
    if ids.contains(id) {
        let i = choose|i: int| 0 <= i < ids.len() && ids[i] == id;
        assert(closed@[i].0 == id);
    }
    if exists|i: int| 0 <= i < closed@.len() && (#[trigger] closed@[i]).0 == id {
        let i = choose|i: int| 0 <= i < closed@.len() && (#[trigger] closed@[i]).0 == id;
        assert(ids[i] == id);
    }
    let keys = held@.map_values(|h: (u64, RealPosition)| h.0);
    if e@.positions.contains_key(id) {
        assert(e@.positions.dom().contains(id));
        assert(keys.to_set().contains(id));
        let i = choose|i: int| 0 <= i < keys.len() && keys[i] == id;
        assert(held@[i].0 == id);
        assert(!e@.positions.is_empty()) by {
            if e@.positions.is_empty() {
                assert(!e@.positions.dom().contains(id));
            }
        }
    }
    if exists|i: int|
        0 <= i < held@.len() && (#[trigger] held@[i]).0 == id && held@[i].1@ == e@.positions[id] {
        let i = choose|i: int|
            0 <= i < held@.len() && (#[trigger] held@[i]).0 == id && held@[i].1@
                == e@.positions[id];
        assert(keys[i] == id);
        assert(keys.to_set().contains(id));
    }
}

/// An emergency close leaves nothing in flight, tracked or counted as open, and keeps
/// the counts, the switch and the throttle. Up to what the ring holds, every order that
/// was in flight is in the log as cancelled.
pub proof fn law_emergency_close(e: &mut ExecutionEngine, id: u64)
    requires
        old(e).wf(),
        call_ensures(ExecutionEngine::emergency_close_all, (e,), ()),
    ensures
        !final(e)@.active.contains_key(id),
        !final(e)@.positions.contains_key(id),
        final(e)@.risk.open_positions == 0,
        final(e)@.risk.kill_switch == old(e)@.risk.kill_switch,
        final(e)@.order_count == old(e)@.order_count,
        final(e)@.fill_count == old(e)@.fill_count,
        final(e)@.reject_count == old(e)@.reject_count,
        final(e)@.throttle == old(e)@.throttle,
        old(e)@.active.len() <= 500 && old(e)@.active.contains_key(id) ==> exists|k: int|
            0 <= k < final(e)@.log.len() && (#[trigger] final(e)@.log[k]) == (OrderView {
                status: OrderStatus::Cancelled,
                ..old(e)@.active[id]
            }),
{
    let s = old(e)@;
    let t = final(e)@;
    let ids = choose|ids: Seq<u64>|
        {
            &&& ids.no_duplicates()
            &&& ids.to_set() == s.active.dom()
            &&& t == EngineView {
                active: Map::empty(),
                log: #[trigger] log_cancelled(s.log, s.active, ids),
                positions: Map::empty(),
                risk: RiskState { open_positions: 0, ..s.risk },
                ..s
            }
        };
    if s.active.len() <= 500 && s.active.contains_key(id) {
        assert(ids.to_set().contains(id));
        ids.unique_seq_to_set();
        assert(ids.len() == s.active.len());
        let i = choose|i: int| 0 <= i < ids.len() && ids[i] == id;
        law_cancelled_orders_are_logged(s.log, s.active, ids, i);
        let k = t.log.len() - (ids.len() - i);
        assert(t.log[k] == cancelled(s.active[id]));
    }
}

/// What the engine is asked for, it shows; what it is told to change, it changes alone.
pub proof fn law_engine_getters(
    e: &ExecutionEngine,
    risk: RiskState,
    stats: ExecStats,
    n: usize,
    recent: Vec<Order>,
    log: &TradeRing,
)
    requires
        call_ensures(ExecutionEngine::risk, (e,), risk),
        call_ensures(ExecutionEngine::stats, (e,), stats),
        call_ensures(ExecutionEngine::recent_orders, (e, n), recent),
        call_ensures(ExecutionEngine::order_log, (e,), log),
    ensures
        risk == e@.risk,
        stats.orders == e@.order_count,
        stats.fills == e@.fill_count,
        stats.rejects == e@.reject_count,
        stats.active == e@.active.len(),
        log@ == e@.log,
        recent@.len() == (if n < e@.log.len() {
            n as nat
        } else {
            e@.log.len()
        }),
        forall|i: int|
            0 <= i < recent@.len() ==> (#[trigger] recent@[i])@ == e@.log[e@.log.len() - 1 - i],
{
    let views = recent@.map_values(|o: Order| o@);
    assert(views.len() == recent@.len());
    assert forall|i: int| 0 <= i < recent@.len() implies (#[trigger] recent@[i])@ == e@.log[
    e@.log.len() - 1 - i] by {
        crate::record_laws::law_recent_reads_backwards(e@.log, n as nat, i);
        assert(views[i] == recent@[i]@);
    }
    crate::record_laws::law_recent_reads_backwards(e@.log, n as nat, 0);
}

/// Setting the risk state, resetting the log and recording an exit change nothing else;
/// the exit goes to the newest entry with the id.
pub proof fn law_engine_setters(
    e: &mut ExecutionEngine,
    f: &mut ExecutionEngine,
    g: &mut ExecutionEngine,
    risk: RiskState,
    id: u64,
    k: int,
    exit_price: Binary64,
    exit_reason: &str,
    pnl: Binary64,
)
    requires
        call_ensures(ExecutionEngine::set_risk, (e, risk), ()),
        call_ensures(ExecutionEngine::reset_sim, (f,), ()),
        call_ensures(ExecutionEngine::record_exit, (g, id, exit_price, exit_reason, pnl), ()),
        0 <= k < old(g)@.log.len(),
        old(g)@.log[k].id == id,
        forall|j: int| k < j < old(g)@.log.len() ==> (#[trigger] old(g)@.log[j]).id != id,
    ensures
        final(e)@ == (EngineView { risk, ..old(e)@ }),
        final(f)@ == (EngineView { log: Seq::empty(), ..old(f)@ }),
        final(g)@ == (EngineView {
            log: old(g)@.log.update(
                k,
                OrderView {
                    exit_price,
                    exit_reason: exit_reason@,
                    pnl,
                    status: OrderStatus::Filled,
                    ..old(g)@.log[k]
                },
            ),
            ..old(g)@
        }),
{
    crate::record_laws::law_exit_is_written_to_the_newest(
        old(g)@.log,
        id,
        k,
        exit_price,
        exit_reason@,
        pnl,
    );
}

/// An order at a time within a second of the window's start is let through exactly if a
/// token is left, and takes it.
pub proof fn law_allow(b: &mut TokenBucket, now: u64, r: bool)
    requires
        call_ensures(TokenBucket::allow_at, (b, now), r),
    ensures
        old(b).window_ns <= now < old(b).window_ns + 1_000_000_000 ==> {
            &&& r <==> old(b).tokens > 0
            &&& final(b).tokens == (if r {
                old(b).tokens - 1
            } else {
                0
            })
            &&& final(b).window_ns == old(b).window_ns
        },
        now >= old(b).window_ns + 1_000_000_000 ==> {
            &&& r <==> old(b).max_per_sec > 0
            &&& final(b).tokens == (if r {
                old(b).max_per_sec - 1
            } else {
                0
            })
            &&& final(b).window_ns == now
        },
        final(b).max_per_sec == old(b).max_per_sec,
{
    crate::record_laws::law_throttle_step(*old(b), now);
}

/// Two readings of one clock, one after the other: the later is never smaller, and
/// neither is smaller than what the system showed.
pub proof fn law_two_readings(a: &mut Clock, b: &mut Clock, first: u64, second: u64, ms: u64, c:
    &mut Clock)
    requires
        call_ensures(now_ns, (a,), first),
        call_ensures(now_ns, (b,), second),
        call_ensures(now_ms, (c,), ms),
        *final(a) == *old(b),
        *final(b) == *old(c),
    ensures
        old(a).last <= first <= second,
        final(a).last == first,
        final(b).last == second,
        second / 1_000_000 <= ms,
        ms == final(c).last / 1_000_000,
        exists|instant: SystemTime| first == #[trigger] reading(old(a).last, instant),
{
}

/// Two ids handed out one after the other differ, and follow one another.
pub proof fn law_two_ids(a: &mut u64, b: &mut u64, first: u64, second: u64)
    requires
        call_ensures(next_order_id, (a,), first),
        call_ensures(next_order_id, (b,), second),
        *final(a) == *old(b),
    ensures
        first == *old(a),
        first != second,
        first < u64::MAX ==> second == first + 1,
{
}

/// The limit price past the book, the rounded quantity, the lot size and the stop's
/// factor, from the calls.
pub proof fn law_pricing_calls(
    side: Side,
    above_ask: Binary64,
    below_bid: Binary64,
    ioc: Binary64,
    qty: Binary64,
    lot: Binary64,
    nearest: Binary64,
    rounded: Binary64,
    is_buy: bool,
    factor: Binary64,
)
    requires
        call_ensures(ioc_price, (side, above_ask, below_bid), ioc),
        call_ensures(round_to_lot, (qty, lot, nearest), rounded),
        call_ensures(stop_limit_factor, (is_buy,), factor),
    ensures
        side == Side::Buy ==> ioc == above_ask,
        side == Side::Sell ==> ioc == below_bid,
        lot.positive() ==> rounded == nearest,
        lot.le_spec(Binary64 { bits: 0 }) ==> rounded == qty,
        is_buy ==> factor.bits == 0x3ff0_cccc_cccc_cccd,
        !is_buy ==> factor.bits == 0x3fee_6666_6666_6666,
{
    crate::number_laws::law_magnitudes_double(0);
}

/// The lot size that a symbol gets is that of its first instrument.
pub proof fn law_lot_size_call(
    instruments: &Vec<Instrument>,
    symbol: &str,
    r: Binary64,
    k: int,
)
    requires
        call_ensures(lot_size_for_symbol, (instruments, symbol), r),
        0 <= k < instruments@.len(),
        instruments@[k].symbol@ == symbol@,
        forall|j: int| 0 <= j < k ==> (#[trigger] instruments@[j]).symbol@ != symbol@,
    ensures
        r == instruments@[k].lot_size,
{
    crate::record_laws::law_lot_size_is_the_first_listed(instruments@, symbol@, k);
}

/// A request that was made anew shows what it was made from, its symbol whole and
/// packed, and no bracket; setting a bracket changes the bracket alone.
pub proof fn law_new_request(
    counter: &mut u64,
    symbol: &str,
    side: Side,
    quantity: Binary64,
    price: Binary64,
    timeout_ms: u64,
    r: OrderRequest,
    tp_price: Binary64,
    sl_price: Binary64,
    bracketed: OrderRequest,
    has: bool,
)
    requires
        call_ensures(
            OrderRequest::new,
            (counter, symbol, side, quantity, price, timeout_ms),
            r,
        ),
        call_ensures(OrderRequest::with_bracket, (r, tp_price, sl_price), bracketed),
        call_ensures(OrderRequest::has_bracket, (&bracketed,), has),
    ensures
        r.id == *old(counter),
        r.symbol_name@ == symbol@,
        r.side == side,
        r.quantity == quantity,
        r.price == price,
        r.timeout_ms == timeout_ms,
        r.tp_price.bits == 0,
        r.sl_price.bits == 0,
        symbol@ == "ETH"@ <==> r.symbol_idx == 1,
        forall|i: int|
            0 <= i < 8 ==> #[trigger] r.symbol@[i] == (if i < encode_utf8(symbol@).len() {
                encode_utf8(symbol@)[i]
            } else {
                0u8
            }),
        bracketed == (OrderRequest { tp_price, sl_price, ..r }),
        has <==> tp_price.positive() && sl_price.positive(),
{
    assert(r@.id == *old(counter));
    crate::record_laws::law_asset_numbers(symbol@);
    assert forall|i: int| 0 <= i < 8 implies #[trigger] r.symbol@[i] == (if i < encode_utf8(
        symbol@,
    ).len() {
        encode_utf8(symbol@)[i]
    } else {
        0u8
    }) by {
        crate::record_laws::law_packed_symbol_bytes(symbol@, i);
        assert(r.symbol@ == r@.symbol);
    }
}

/// The asset number of a symbol and the text of a packed one.
pub proof fn law_symbol_calls(symbol: &str, asset: u8, packed: &[u8; 8], text: &str, end: int)
    requires
        call_ensures(symbol_to_asset_id, (symbol,), asset),
        call_ensures(unpack_symbol, (packed,), text),
        0 <= end <= 8,
        forall|j: int| 0 <= j < end ==> packed@[j] != 0,
        end < 8 ==> packed@[end] == 0,
    ensures
        asset == 1 <==> symbol@ == "ETH"@,
        asset == 2 <==> symbol@ == "SOL"@,
        asset == 3 <==> symbol@ == "AVAX"@,
        asset == 4 <==> symbol@ == "ARB"@,
        asset <= 4,
        valid_utf8(packed@.take(end)) ==> encode_utf8(text@) == packed@.take(end),
        !valid_utf8(packed@.take(end)) ==> text@ == "BTC"@,
{
    crate::record_laws::law_asset_numbers(symbol@);
    crate::record_laws::law_symbol_text_ends_at_zero(packed@, end);
}

/// Pushing to the ring, reading it and writing an exit to it.
pub proof fn law_ring_calls(ring: &mut TradeRing, order: Order, n: usize, newest: Vec<Order>)
    requires
        old(ring).wf(),
        call_ensures(TradeRing::push, (ring, order), ()),
        call_ensures(TradeRing::recent, (&*final(ring), n), newest),
        n > 0,
    ensures
        final(ring)@.last() == order@,
        final(ring)@.len() == (if old(ring)@.len() < 500 {
            old(ring)@.len() + 1
        } else {
            500
        }),
        newest@.len() > 0,
        newest@[0]@ == order@,
{
    crate::record_laws::law_push_keeps_the_rest(old(ring)@, order@);
    let log = final(ring)@;
    crate::record_laws::law_recent_reads_backwards(log, n as nat, 0);
    let views = newest@.map_values(|o: Order| o@);
    assert(views.len() == newest@.len());
    assert(views[0] == newest@[0]@);
}

/// A reply's fill: what the document says under the numbers that were read.
pub proof fn law_fill_call(
    bytes: &[u8],
    prices: &Vec<Option<Binary64>>,
    r: Result<Binary64, FillError>,
    reply: JsonTree,
    list: Seq<JsonTree>,
    k: int,
)
    requires
        call_ensures(parse_hl_fill_price, (bytes, prices), r),
        json_document(bytes@) == Ok::<JsonTree, Seq<char>>(reply),
        reply.member("status"@) != JsonTree::Text("err"@),
        reply.member("response"@).member("data"@).member("statuses"@) == JsonTree::Array(list),
        prices@.len() == list.len(),
        0 <= k < list.len(),
        forall|j: int|
            #![trigger list[j]]
            0 <= j < k ==> {
                &&& !(list[j].member("error"@) is Text)
                &&& !(list[j].member("resting"@) is Object)
                &&& !(list[j].member("filled"@).member("avgPx"@) is Text) || !(
                prices@[j] matches Some(p) && p.positive())
            },
    ensures
        list[k].member("error"@) matches JsonTree::Text(message) ==> (r matches Err(e) && e@
            == FillErrorView::Rejected(message)),
        !(list[k].member("error"@) is Text) && list[k].member("filled"@).member("avgPx"@) is Text
            && (prices@[k] matches Some(p) && p.positive()) ==> r == Ok::<Binary64, FillError>(
            prices@[k]->Some_0,
        ),
        !(list[k].member("error"@) is Text) && !(list[k].member("filled"@).member("avgPx"@) is Text
            && (prices@[k] matches Some(p) && p.positive())) && list[k].member("resting"@) is Object
            ==> (r matches Err(e) && e@ == FillErrorView::Resting),
{
    crate::reply_laws::law_first_telling_status_decides(reply, list, prices@, k);
}

/// A reply that is no JSON, or whose status is `err`, is no fill, and the error says
/// which.
pub proof fn law_failed_reply_call(
    bytes: &[u8],
    prices: &Vec<Option<Binary64>>,
    r: Result<Binary64, FillError>,
)
    requires
        call_ensures(parse_hl_fill_price, (bytes, prices), r),
    ensures
        json_document(bytes@) matches Err(cause) ==> (r matches Err(e) && e@
            == FillErrorView::NotJson(cause)),
        json_document(bytes@) matches Ok(reply) ==> (reply.member("status"@) == JsonTree::Text(
            "err"@,
        ) <==> (r matches Err(e) && e@ == FillErrorView::Exchange)),
        r matches Ok(price) ==> price.positive(),
{
    if let Ok(reply) = json_document(bytes@) {
        crate::reply_laws::law_error_status_decides(reply, prices@);
    }
}

/// The coins that a reply reports as open.
pub proof fn law_open_symbols_call(
    bytes: &[u8],
    sizes: &Vec<Option<Binary64>>,
    r: Result<Vec<String>, String>,
    reply: JsonTree,
    list: Seq<JsonTree>,
    coin: Seq<char>,
)
    requires
        call_ensures(open_symbols, (bytes, sizes), r),
        json_document(bytes@) == Ok::<JsonTree, Seq<char>>(reply),
        reply.member("assetPositions"@) == JsonTree::Array(list),
        sizes@.len() == list.len(),
    ensures
        r is Ok,
        contains_text(r->Ok_0@, coin) <==> exists|i: int|
            #![trigger list[i]]
            0 <= i < list.len() && {
                &&& list[i].member("position"@).member("coin"@) == JsonTree::Text(coin)
                &&& list[i].member("position"@).member("szi"@) is Text
                &&& sizes@[i] matches Some(size)
                &&& !size.is_nan()
                &&& size.number() != 0
            },
{
    law_open_means_any_size(reply, list, sizes@, coin);
    let coins = r->Ok_0@;
    let views = coins.map_values(|s: String| s@);
    if contains_text(coins, coin) {
        let i = choose|i: int| 0 <= i < coins.len() && #[trigger] coins[i]@ == coin;
        assert(views[i] == coin);
    }
    if views.contains(coin) {
        let i = choose|i: int| 0 <= i < views.len() && views[i] == coin;
        assert(coins[i]@ == coin);
    }
}

/// The texts that are handed out for parsing stand where the numbers are expected.
pub proof fn law_texts_to_parse(
    bytes: &[u8],
    prices: Vec<Option<String>>,
    sizes: Result<Vec<Option<String>>, String>,
    reply: JsonTree,
    statuses: Seq<JsonTree>,
    positions: Seq<JsonTree>,
    i: int,
)
    requires
        call_ensures(avg_px_texts, (bytes,), prices),
        call_ensures(size_texts, (bytes,), sizes),
        json_document(bytes@) == Ok::<JsonTree, Seq<char>>(reply),
        reply.member("response"@).member("data"@).member("statuses"@) == JsonTree::Array(statuses),
        reply.member("assetPositions"@) == JsonTree::Array(positions),
    ensures
        prices@.len() == statuses.len(),
        0 <= i < statuses.len() ==> text_view(prices@[i]) == statuses[i].member("filled"@).member(
            "avgPx"@,
        ).text(),
        sizes is Ok,
        sizes->Ok_0@.len() == positions.len(),
        0 <= i < positions.len() ==> text_view(sizes->Ok_0@[i]) == positions[i].member(
            "position"@,
        ).member("szi"@).text(),
{
}

/// The beginning of a reply, as messages quote it, and the message itself.
pub proof fn law_excerpt_calls(bytes: &[u8], r: &str, error: &FillError, message: String)
    requires
        crate::replies::excerpt_defined(bytes@),
        call_ensures(raw_excerpt, (bytes,), r),
        call_ensures(FillError::describe, (error, bytes), message),
    ensures
        valid_utf8(bytes@) ==> encode_utf8(r@) == (if bytes@.len() <= 200 {
            bytes@
        } else {
            bytes@.take(200)
        }),
        !valid_utf8(bytes@) ==> r@.len() == 0,
        error@ matches FillErrorView::Rejected(cause) ==> message@ == "HL rejected: "@ + cause,
        error@ is Exchange ==> message@ == "HL error: "@ + r@,
        error@ is NotFilled ==> message@ == "HL IOC not filled — raw: "@ + r@,
{
    law_excerpt_is_the_beginning(bytes@);
}

/// The exchange's notation and the secret's digits, from the calls.
pub proof fn law_text_calls(fixed: &str, wire: String, secret: &str, digits: &str)
    requires
        call_ensures(fixed_to_wire, (fixed,), wire),
        call_ensures(strip_0x, (secret,), digits),
    ensures
        wire@.len() <= fixed@.len(),
        wire@ == fixed@.take(wire@.len() as int),
        wire@.len() > 0 ==> wire@.last() != '.',
        forall|i: int| wire@.len() <= i < fixed@.len() ==> #[trigger] fixed@[i] == '0' || fixed@[i]
            == '.',
        digits@.len() <= secret@.len(),
        digits@ == secret@.skip(secret@.len() - digits@.len()),
        !(digits@.len() >= 2 && digits@[0] == '0' && digits@[1] == 'x'),
{
    crate::text_laws::law_wire_drops_points_and_zeros(fixed@);
    crate::text_laws::law_strip_drops_only_prefixes(secret@);
    assert(strip_0x_spec(secret@) == digits@);
}

} // verus!
