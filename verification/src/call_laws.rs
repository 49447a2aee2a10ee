//! What callers get from the functions that read the clock, and from the smaller ones
//! that the operations are made of.
use crate::action::{action_tree, hl_action_msgpack, mp_str, mp_uint, order_kind, order_tree};
use crate::action::{optional_text, push_action};
use crate::binary64::Binary64;
use crate::bracket::BracketRun;
use crate::clock::{elapsed_ns, reading, reduce_nanos, Clock};
use crate::engine::ExecutionEngine;
use crate::error::{ExecError, ExecErrorView};
use crate::order::{Order, OrderRequest, OrderStatus, OrderView, Side};
use crate::replies::{excerpt_is_defined, FillError};
use crate::requests::{plan_bracket, plan_bracket_at, signed_body, BracketBodies, BracketPrices};
use crate::signing::{
    action_digest, hex_text, hl_sign_order, sign_spec, signature_json, signing_digest, SignError,
};
use crate::state::{
    after_closes, closes_as, marked_ids, next_u32, next_u64, real_refusal, sim_refusal,
};
use crate::state::{
    Admitted, BookLevel, ClosedPosition, EngineView, ExitReason, PlaceOutcome, RiskState,
    SettledFill, SimOrder, SimSide, Sizing,
};
use crate::text::{contains_text, decimal, find_byte_after, find_bytes, has_text, push_decimal};
use crate::text::{push_truth, same_text};
use crate::throttle::TokenBucket;
use crate::trade_ring::TradeRing;
use crate::wire::{pack, render, str_bytes, uint_bytes};
use std::time::SystemTime;
use vstd::prelude::*;
use vstd::utf8::{encode_utf8, is_char_boundary, valid_utf8};

verus! {

/// A bucket and an engine that are made now start with a full window at the clock's
/// reading, and the engine with nothing in its books.
pub proof fn law_made_now(
    clock: &mut Clock,
    later: &mut Clock,
    max_per_sec: u64,
    bucket: TokenBucket,
    risk: RiskState,
    engine: ExecutionEngine,
    id: u64,
)
    requires
        call_ensures(TokenBucket::new, (max_per_sec, clock), bucket),
        call_ensures(ExecutionEngine::new, (risk, later), engine),
    ensures
        exists|instant: SystemTime|
            final(clock).last == #[trigger] reading(old(clock).last, instant),
        bucket.tokens == max_per_sec,
        bucket.max_per_sec == max_per_sec,
        bucket.window_ns == final(clock).last,
        exists|instant: SystemTime|
            final(later).last == #[trigger] reading(old(later).last, instant),
        engine@.throttle.window_ns == final(later).last,
        engine@.throttle.tokens == 50,
        engine@.throttle.max_per_sec == 50,
        !engine@.active.contains_key(id),
        !engine@.positions.contains_key(id),
        engine@.log.len() == 0,
        engine@.order_count == 0,
        engine@.fill_count == 0,
        engine@.reject_count == 0,
        engine@.risk == risk,
        engine.wf(),
{
}

/// An order now is let through exactly if one at the clock's reading is.
pub proof fn law_allowed_now(bucket: &mut TokenBucket, clock: &mut Clock, r: bool)
    requires
        call_ensures(TokenBucket::allow, (bucket, clock), r),
    ensures
        exists|instant: SystemTime|
            final(clock).last == #[trigger] reading(old(clock).last, instant),
        r == old(bucket).grants(final(clock).last),
        *final(bucket) == old(bucket).after(final(clock).last),
{
}

/// A request that is handed in now is admitted exactly as one at the clock's last
/// reading; it was submitted at the reading before, and is in flight since then.
pub proof fn law_admitted_now(
    e: &mut ExecutionEngine,
    req: OrderRequest,
    sizing: Sizing,
    clock: &mut Clock,
    r: Result<Admitted, ExecError>,
)
    requires
        call_ensures(ExecutionEngine::admit_real, (e, req, sizing, clock), r),
    ensures
        ({
            let s = old(e)@;
            let t = final(e)@;
            let refusal = real_refusal(s, req@, final(clock).last, sizing);
            &&& old(clock).last <= final(clock).last
            &&& r is Ok <==> refusal is None
            &&& r matches Err(error) ==> error@ == refusal->Some_0
            &&& r matches Ok(admitted) ==> {
                &&& admitted.request@ == req@.with_quantity(sizing.rounded(req@))
                &&& old(clock).last <= admitted.t_submit <= final(clock).last
                &&& exists|instant: SystemTime|
                    admitted.t_submit == #[trigger] reading(old(clock).last, instant)
                &&& exists|instant: SystemTime|
                    final(clock).last == #[trigger] reading(admitted.t_submit, instant)
                &&& t.active.contains_key(req.id)
                &&& t.active[req.id].created_ns == admitted.t_submit
                &&& t.active[req.id].quantity == sizing.rounded(req@)
                &&& t.order_count == next_u64(s.order_count)
                &&& t.risk.open_positions == next_u32(s.risk.open_positions)
            }
            &&& r is Err ==> t == EngineView { throttle: t.throttle, ..s }
            &&& !s.risk.kill_switch ==> t.throttle == s.throttle.after(final(clock).last)
        }),
{
    let (a, b) = choose|a: SystemTime, b: SystemTime|
        #![trigger reading(reading(old(clock).last, a), b)]
        {
            let t_submit = reading(old(clock).last, a);
            let now = reading(t_submit, b);
            &&& final(clock).last == now
            &&& final(e)@ == crate::state::after_real_request(
                old(e)@,
                req@,
                t_submit,
                now,
                sizing,
            )
            &&& match real_refusal(old(e)@, req@, now, sizing) {
                Some(x) => r matches Err(error) && error@ == x,
                None => r matches Ok(admitted) && admitted.t_submit == t_submit
                    && admitted.request@ == req@.with_quantity(sizing.rounded(req@)),
            }
        };
    let t_submit = reading(old(clock).last, a);
    assert(final(clock).last == reading(t_submit, b));
}

/// What has become of an order by now is settled with the time since its submission;
/// a bracketed fill is tracked with the clock's reading in milliseconds.
pub proof fn law_settled_now(
    e: &mut ExecutionEngine,
    req: &OrderRequest,
    t_submit: u64,
    outcome: PlaceOutcome,
    clock: &mut Clock,
    r: Result<SettledFill, ExecError>,
)
    requires
        call_ensures(ExecutionEngine::settle_real, (e, req, t_submit, outcome, clock), r),
        old(e)@.active.contains_key(req.id),
        t_submit <= old(clock).last,
    ensures
        ({
            let s = old(e)@;
            let t = final(e)@;
            let bracketed = req.tp_price.positive() && req.sl_price.positive();
            &&& old(clock).last <= final(clock).last
            &&& !t.active.contains_key(req.id)
            &&& old(clock).last - t_submit <= t.log.last().latency_ns <= final(clock).last
                - t_submit
            &&& outcome matches PlaceOutcome::Filled(price) ==> {
                &&& r matches Ok(fill)
                &&& fill.order_id == req.id
                &&& fill.place_bracket == bracketed
                &&& t.log.last().status == OrderStatus::Filled
                &&& t.log.last().filled_price == price
                &&& bracketed ==> t.positions.contains_key(req.id)
                    && t.positions[req.id].entry_ts_ms == final(clock).last / 1_000_000
                &&& !bracketed ==> t.positions == s.positions
            }
            &&& outcome matches PlaceOutcome::Failed(error) ==> r == Err::<SettledFill, ExecError>(
                error,
            )
            &&& outcome is TimedOut ==> (r matches Err(error) && error@ == ExecErrorView::Timeout(
                req.timeout_ms,
            ))
            &&& !(outcome is Filled) ==> t.log.last().status == OrderStatus::Rejected
                && t.positions == s.positions
        }),
{
    let (a, b) = choose|a: SystemTime, b: SystemTime|
        #![trigger reading(reading(old(clock).last, a), b)]
        {
            let now = reading(old(clock).last, a);
            &&& final(clock).last == reading(now, b)
            &&& final(e)@ == crate::state::after_outcome(
                old(e)@,
                req@,
                crate::clock::elapsed_spec(t_submit, now),
                final(clock).last / 1_000_000,
                outcome,
            )
        };
    assert(reading(reading(old(clock).last, a), b) == final(clock).last);
}

/// A simulated order is admitted now exactly as one at the clock's reading is, and what
/// the account did is logged with the clock's reading.
pub proof fn law_simulated_now(
    e: &mut ExecutionEngine,
    f: &mut ExecutionEngine,
    req: &OrderRequest,
    book: Option<BookLevel>,
    clock: &mut Clock,
    later: &mut Clock,
    r: Result<SimOrder, ExecError>,
    price: Binary64,
    recorded: Result<u64, ExecError>,
)
    requires
        call_ensures(ExecutionEngine::admit_simulated, (e, req, book, clock), r),
        call_ensures(ExecutionEngine::record_simulated, (f, req, Some(price), later), recorded),
    ensures
        exists|instant: SystemTime|
            final(clock).last == #[trigger] reading(old(clock).last, instant),
        r is Ok <==> sim_refusal(old(e)@, req.side, final(clock).last, book) is None,
        r matches Err(error) ==> error@ == sim_refusal(
            old(e)@,
            req.side,
            final(clock).last,
            book,
        )->Some_0,
        r matches Ok(order) ==> order.order_id == req.id && order.symbol@ == req.symbol_name@
            && order.quantity == req.quantity && (order.side == SimSide::Long <==> req.side
            == Side::Buy),
        final(e)@ == (EngineView {
            throttle: if old(e)@.risk.kill_switch {
                old(e)@.throttle
            } else {
                old(e)@.throttle.after(final(clock).last)
            },
            ..old(e)@
        }),
        exists|instant: SystemTime|
            final(later).last == #[trigger] reading(old(later).last, instant),
        recorded == Ok::<u64, ExecError>(req.id),
        final(f)@.log.last().created_ns == final(later).last,
        final(f)@.log.last().filled_price == price,
        final(f)@.log.last().filled_qty == req.quantity,
        final(f)@.log.last().status == OrderStatus::Open,
        final(f)@.order_count == next_u64(old(f)@.order_count),
        final(f)@.risk.open_positions == next_u32(old(f)@.risk.open_positions),
        final(f)@.positions == old(f)@.positions,
        final(f)@.active == old(f)@.active,
{
}

/// Where the account opened nothing, nothing is recorded.
pub proof fn law_simulated_nothing(
    f: &mut ExecutionEngine,
    req: &OrderRequest,
    clock: &mut Clock,
    r: Result<u64, ExecError>,
)
    requires
        call_ensures(ExecutionEngine::record_simulated, (f, req, None::<Binary64>, clock), r),
    ensures
        r matches Err(error) && error@ == ExecErrorView::SimNoFill,
        final(f)@ == old(f)@,
{
}

/// A bracket planned now is the bracket planned at the clock's reading in milliseconds.
pub proof fn law_planned_now(
    secret_hex: &str,
    req: &OrderRequest,
    prices: BracketPrices,
    clock: &mut Clock,
    r: Result<BracketBodies, SignError>,
    at: Result<BracketBodies, SignError>,
)
    requires
        call_ensures(plan_bracket, (secret_hex, req, prices, clock), r),
        call_ensures(
            plan_bracket_at,
            (secret_hex, req, prices, final(clock).last / 1_000_000),
            at,
        ),
    ensures
        exists|instant: SystemTime|
            final(clock).last == #[trigger] reading(old(clock).last, instant),
        r is Ok <==> at is Ok,
        r matches Ok(bodies) ==> bodies.tp@ == at->Ok_0.tp@ && bodies.sl@ == at->Ok_0.sl@,
        r matches Err(e) ==> e@ == at->Err_0@,
{
}

/// Closing a list of positions closes each after those before it.
pub proof fn law_close_positions(
    e: &mut ExecutionEngine,
    marks: &Vec<(u64, Binary64)>,
    r: Vec<Option<ClosedPosition>>,
    i: int,
)
    requires
        call_ensures(ExecutionEngine::close_positions, (e, marks), r),
        0 <= i < marks@.len(),
        forall|j: int| 0 <= j < i ==> (#[trigger] marks@[j]).0 != marks@[i].0,
    ensures
        r@.len() == marks@.len(),
        final(e)@ == after_closes(old(e)@, marked_ids(marks@)),
        r@[i] is Some <==> old(e)@.positions.contains_key(marks@[i].0),
        r@[i] matches Some(c) ==> closes_as(c, old(e)@.positions[marks@[i].0], marks@[i].1),
{
    let ids = marked_ids(marks@);
    assert forall|j: int| 0 <= j < i implies #[trigger] ids.take(i)[j] != marks@[i].0 by {
        assert(ids[j] == marks@[j].0);
    }
    lemma_other_closes(old(e)@, ids.take(i), marks@[i].0);
    assert(r@[i] is Some || r@[i] is None);
}

proof fn lemma_other_closes(s: EngineView, ids: Seq<u64>, id: u64)
    requires
        forall|j: int| 0 <= j < ids.len() ==> #[trigger] ids[j] != id,
    ensures
        after_closes(s, ids).positions.contains_key(id) == s.positions.contains_key(id),
        s.positions.contains_key(id) ==> after_closes(s, ids).positions[id] == s.positions[id],
    decreases ids.len(),
{
    if ids.len() > 0 {
        let rest = ids.drop_last();
        assert forall|j: int| 0 <= j < rest.len() implies #[trigger] rest[j] != id by {
            assert(rest[j] == ids[j]);
        }
        assert(ids[ids.len() - 1] != id);
        lemma_other_closes(s, rest, id);
    }
}

/// The bytes, the digest and the signature of an order's action are those of the action
/// itself.
pub proof fn law_signing_calls(
    secret_hex: &str,
    asset_id: u8,
    is_buy: bool,
    price_w: &str,
    qty_w: &str,
    reduce_only: bool,
    tif_or_trigger: &str,
    trigger_px: Option<&str>,
    nonce: u64,
    bytes: Vec<u8>,
    digest: [u8; 32],
    signed: Result<String, SignError>,
    body: Result<String, SignError>,
)
    requires
        call_ensures(
            hl_action_msgpack,
            (asset_id, is_buy, price_w, qty_w, reduce_only, tif_or_trigger, trigger_px),
            bytes,
        ),
        call_ensures(action_digest, (&bytes, nonce), digest),
        call_ensures(
            hl_sign_order,
            (
                secret_hex,
                asset_id,
                is_buy,
                price_w,
                qty_w,
                reduce_only,
                tif_or_trigger,
                trigger_px,
                nonce,
            ),
            signed,
        ),
        call_ensures(
            signed_body,
            (
                secret_hex,
                asset_id,
                is_buy,
                price_w,
                qty_w,
                reduce_only,
                tif_or_trigger,
                trigger_px,
                nonce,
            ),
            body,
        ),
    ensures
        ({
            let action = action_tree(
                order_tree(
                    asset_id,
                    is_buy,
                    price_w@,
                    qty_w@,
                    reduce_only,
                    order_kind(tif_or_trigger@, optional_text(trigger_px), price_w@),
                ),
            );
            &&& bytes@ == pack(action)
            &&& digest@ == signing_digest(pack(action), nonce)
            &&& signed is Ok <==> sign_spec(secret_hex@, bytes@, nonce) is Ok
            &&& signed matches Ok(text) ==> text@ == sign_spec(secret_hex@, bytes@, nonce)->Ok_0
            &&& signed matches Err(e) ==> e@ == sign_spec(secret_hex@, bytes@, nonce)->Err_0
            &&& body is Ok <==> signed is Ok
            &&& body matches Ok(text) ==> text@ == "{\"action\":"@ + render(action) + ",\"nonce\":"@
                + decimal(nonce as nat) + ",\"signature\":"@ + signed->Ok_0@ + "}"@
            &&& body matches Err(e) ==> e@ == signed->Err_0@
        }),
{
    let action = action_tree(
        order_tree(
            asset_id,
            is_buy,
            price_w@,
            qty_w@,
            reduce_only,
            order_kind(tif_or_trigger@, optional_text(trigger_px), price_w@),
        ),
    );
    if let Ok(text) = signed {
        crate::request_laws::law_body_text(action, nonce, text@);
    }
}

/// The text of a signature, from the call.
pub proof fn law_signature_call(signature: &[u8; 64], recovery: u8, r: String)
    requires
        call_ensures(signature_json, (signature, recovery), r),
    ensures
        r@ == "{\"r\":\"0x"@ + hex_text(signature@.take(32)) + "\",\"s\":\"0x"@ + hex_text(
            signature@.skip(32),
        ) + "\",\"v\":"@ + decimal((27 + recovery) as nat) + "}"@,
{
    crate::request_laws::law_signature_text(signature@, recovery);
}

/// What the writers append, and that they change nothing before it.
pub proof fn law_writers(
    a: &mut Vec<u8>,
    b: &mut Vec<u8>,
    text: &str,
    n: u64,
    s: &mut String,
    t: &mut String,
    truth: bool,
)
    requires
        call_ensures(mp_str, (a, text), ()),
        call_ensures(mp_uint, (b, n), ()),
        call_ensures(push_decimal, (s, n), ()),
        call_ensures(push_truth, (t, truth), ()),
    ensures
        final(a)@ == old(a)@ + str_bytes(encode_utf8(text@)),
        final(b)@ == old(b)@ + uint_bytes(n as nat),
        final(s)@ == old(s)@ + decimal(n as nat),
        final(t)@ == old(t)@ + (if truth {
            "true"@
        } else {
            "false"@
        }),
{
}

/// The action's text is appended, and nothing before it is changed.
pub proof fn law_action_writer(
    out: &mut String,
    asset_id: u8,
    is_buy: bool,
    price_w: &str,
    qty_w: &str,
    reduce_only: bool,
    tif_or_trigger: &str,
    trigger_px: Option<&str>,
)
    requires
        call_ensures(
            push_action,
            (out, asset_id, is_buy, price_w, qty_w, reduce_only, tif_or_trigger, trigger_px),
            (),
        ),
    ensures
        final(out)@ == old(out)@ + ("{\"type\":\"order\",\"orders\":["@ + render(
            order_tree(
                asset_id,
                is_buy,
                price_w@,
                qty_w@,
                reduce_only,
                order_kind(tif_or_trigger@, optional_text(trigger_px), price_w@),
            ),
        ) + "],\"grouping\":\"na\"}"@),
{
    crate::encoding_laws::law_action_text(
        order_tree(
            asset_id,
            is_buy,
            price_w@,
            qty_w@,
            reduce_only,
            order_kind(tif_or_trigger@, optional_text(trigger_px), price_w@),
        ),
    );
}

/// The messages that errors give.
pub proof fn law_message_calls(
    sign: &SignError,
    sign_text: String,
    fill: &FillError,
    raw: &str,
    fill_text: String,
    fill_quotes: bool,
    error: &ExecError,
    text: String,
    quotes: bool,
)
    requires
        call_ensures(SignError::message, (sign,), sign_text),
        call_ensures(FillError::message, (fill, raw), fill_text),
        call_ensures(FillError::quotes_reply, (fill,), fill_quotes),
        call_ensures(ExecError::message, (error, raw), text),
        call_ensures(ExecError::quotes_reply, (error,), quotes),
    ensures
        sign is SecretLength ==> sign_text@ == "HL secret must be 32 bytes"@,
        *sign matches SignError::SecretHex(cause) ==> sign_text@ == "HL secret hex decode: "@
            + cause@,
        *sign matches SignError::Key(cause) ==> sign_text@ == "HL signing key: "@ + cause@,
        *sign matches SignError::Sign(cause) ==> sign_text@ == "HL sign: "@ + cause@,
        *fill matches FillError::NotJson(cause) ==> fill_text@ == "HL JSON parse error: "@ + cause@
            + " — raw: "@ + raw@,
        fill is Exchange ==> fill_text@ == "HL error: "@ + raw@,
        *fill matches FillError::Rejected(cause) ==> fill_text@ == "HL rejected: "@ + cause@,
        fill is Resting ==> fill_text@ == "HL order resting (not an IOC fill)"@,
        fill is NotFilled ==> fill_text@ == "HL IOC not filled — raw: "@ + raw@,
        fill_quotes <==> fill is NotJson || fill is Exchange || fill is NotFilled,
        error is KillSwitch ==> text@ == "KS"@,
        error is Throttled ==> text@ == "THROTTLE"@,
        error is RiskSize ==> text@ == "RISK_SIZE"@,
        *error matches ExecError::InvalidSize(lot) ==> text@
            == "INVALID_SIZE: rounded qty is zero for lot_size="@ + lot@,
        error is ImbalanceFilter ==> text@ == "OB_IMBALANCE_FILTER"@,
        error is SimNoFill ==> text@ == "SIM_NO_FILL: max positions or insufficient balance"@,
        *error matches ExecError::Timeout(ms) ==> text@ == "TIMEOUT_"@ + decimal(ms as nat)
            + "ms"@,
        *error matches ExecError::Sign(e) ==> text@ == e@.message(),
        *error matches ExecError::Fill(e) ==> text@ == e@.message(raw@),
        *error matches ExecError::Transport(cause) ==> text@ == cause@,
        quotes <==> (*error matches ExecError::Fill(e) && e@.quotes_reply()),
{
}

/// An error's message for a reply quotes the reply's beginning.
pub proof fn law_describe_calls(
    error: &ExecError,
    fill: &FillError,
    reply: &[u8],
    text: String,
    fill_text: String,
    defined: bool,
)
    requires
        call_ensures(ExecError::describe, (error, reply), text),
        call_ensures(FillError::describe, (fill, reply), fill_text),
        call_ensures(excerpt_is_defined, (reply,), defined),
    ensures
        text@ == error@.message(crate::replies::excerpt(reply@)),
        fill_text@ == fill@.message(crate::replies::excerpt(reply@)),
        *error == ExecError::Fill(*fill) ==> text@ == fill_text@,
        defined <==> !valid_utf8(reply@) || reply@.len() <= 200 || is_char_boundary(reply@, 200),
{
}

/// Comparisons of doubles, from the calls.
pub proof fn law_number_calls(
    a: &Binary64,
    b: &Binary64,
    lt: bool,
    le: bool,
    positive: bool,
    magnitude: Binary64,
    zero: Binary64,
    bits: u64,
    made: Binary64,
    shown: u64,
)
    requires
        call_ensures(Binary64::less_than, (a, b), lt),
        call_ensures(Binary64::at_most, (a, b), le),
        call_ensures(Binary64::is_positive, (a,), positive),
        call_ensures(Binary64::abs, (a,), magnitude),
        call_ensures(Binary64::zero, (), zero),
        call_ensures(Binary64::from_bits, (bits,), made),
        call_ensures(Binary64::to_bits, (a,), shown),
    ensures
        lt <==> !a.is_nan() && !b.is_nan() && a.number() < b.number(),
        le <==> !a.is_nan() && !b.is_nan() && a.number() <= b.number(),
        positive <==> !a.is_nan() && a.number() > 0,
        magnitude.bits == a.bits % 0x8000_0000_0000_0000,
        zero.bits == 0,
        made.bits == bits,
        shown == a.bits,
{
}

/// The log's other functions, and the record of an order.
pub proof fn law_log_calls(
    fresh: TradeRing,
    ring: &TradeRing,
    n: usize,
    cleared: &mut TradeRing,
    written: &mut TradeRing,
    id: u64,
    k: int,
    exit_price: Binary64,
    exit_reason: &str,
    pnl: Binary64,
)
    requires
        call_ensures(TradeRing::new, (), fresh),
        call_ensures(TradeRing::len, (ring,), n),
        call_ensures(TradeRing::clear, (cleared,), ()),
        call_ensures(TradeRing::update_exit, (written, id, exit_price, exit_reason, pnl), ()),
        0 <= k < old(written)@.len(),
        old(written)@[k].id == id,
        forall|j: int| k < j < old(written)@.len() ==> (#[trigger] old(written)@[j]).id != id,
    ensures
        fresh@.len() == 0,
        n == ring@.len(),
        final(cleared)@.len() == 0,
        final(written)@ == old(written)@.update(
            k,
            OrderView {
                exit_price,
                exit_reason: exit_reason@,
                pnl,
                status: OrderStatus::Filled,
                ..old(written)@[k]
            },
        ),
{
    crate::record_laws::law_exit_is_written_to_the_newest(
        old(written)@,
        id,
        k,
        exit_price,
        exit_reason@,
        pnl,
    );
}

/// The record of a request that goes out.
pub proof fn law_opened_call(
    req: &OrderRequest,
    filled_qty: Binary64,
    filled_price: Binary64,
    created_ns: u64,
    o: Order,
)
    requires
        call_ensures(Order::opened, (req, filled_qty, filled_price, created_ns), o),
    ensures
        o@.id == req.id,
        o@.symbol == req.symbol@,
        o@.side == req.side,
        o@.quantity == req.quantity,
        o@.price == req.price,
        o@.status == OrderStatus::Open,
        o@.filled_qty == filled_qty,
        o@.filled_price == filled_price,
        o@.created_ns == created_ns,
        o@.latency_ns == 0,
        o@.pnl.bits == 0,
        o@.exit_price.bits == 0,
        o@.exit_reason.len() == 0,
{
}

/// Sides and reasons by name, and a bracket run and a clock at their start.
pub proof fn law_small_calls(
    side: &Side,
    name: &'static str,
    buying: bool,
    reason: &ExitReason,
    reason_name: &'static str,
    run: BracketRun,
    clock: Clock,
)
    requires
        call_ensures(Side::as_str, (side,), name),
        call_ensures(Side::closes_by_buying, (side,), buying),
        call_ensures(ExitReason::as_str, (reason,), reason_name),
        call_ensures(BracketRun::new, (), run),
        call_ensures(Clock::new, (), clock),
    ensures
        *side == Side::Buy ==> name@ == "BUY"@,
        *side == Side::Sell ==> name@ == "SELL"@,
        buying <==> *side == Side::Sell,
        *reason == ExitReason::TakeProfit ==> reason_name@ == "TP"@,
        *reason == ExitReason::StopLoss ==> reason_name@ == "SL"@,
        run.attempt == 0,
        !run.tp_placed,
        !run.sl_placed,
        clock.last == 0,
{
}

/// Counts of nanoseconds, spans, and a clock that takes a count over.
pub proof fn law_clock_calls(
    nanos: u128,
    ns: u64,
    none: u64,
    from: u64,
    to: u64,
    span: u64,
    clock: &mut Clock,
    shown: u64,
)
    requires
        call_ensures(reduce_nanos, (Some(nanos),), ns),
        call_ensures(reduce_nanos, (None::<u128>,), none),
        call_ensures(elapsed_ns, (from, to), span),
        call_ensures(Clock::advance, (clock, Some(nanos)), shown),
    ensures
        nanos <= u64::MAX ==> ns == nanos,
        none == 0,
        from <= to ==> span == to - from,
        (from + span) % 0x1_0000_0000_0000_0000 == to,
        shown == (if ns < old(clock).last {
            old(clock).last
        } else {
            ns
        }),
        final(clock).last == shown,
{
}

/// Comparing texts and searching in lists and bytes: what is found is the first there
/// is.
pub proof fn law_search_calls(
    a: &str,
    b: &str,
    same: bool,
    list: &Vec<String>,
    held: bool,
    haystack: &[u8],
    needle: &[u8],
    found: Option<usize>,
    start: usize,
    byte: u8,
    at: Option<usize>,
    k: int,
)
    requires
        needle@.len() > 0,
        start <= haystack@.len(),
        call_ensures(same_text, (a, b), same),
        call_ensures(has_text, (list, a), held),
        call_ensures(find_bytes, (haystack, needle), found),
        call_ensures(find_byte_after, (haystack, start, byte), at),
    ensures
        same <==> a@ == b@,
        held <==> contains_text(list@, a@),
        found matches Some(i) ==> i + needle@.len() <= haystack@.len() && haystack@.subrange(
            i as int,
            i + needle@.len(),
        ) == needle@,
        0 <= k && k + needle@.len() <= haystack@.len() && haystack@.subrange(k, k + needle@.len())
            == needle@ ==> (found matches Some(i) ==> i <= k),
        at matches Some(i) ==> start <= i < haystack@.len() && haystack@[i as int] == byte,
        start <= k < haystack@.len() && haystack@[k] == byte ==> (at matches Some(i) ==> i <= k),
{
    let h = haystack@;
    if let Some(i) = found {
        assert(k < i ==> !crate::text::occurs_at(h, needle@, k));
    }
    if let Some(i) = at {
        assert(start <= k < i ==> h[k] != byte);
    }
}

} // verus!
