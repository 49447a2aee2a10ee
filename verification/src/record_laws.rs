//! What the library's records show, and how symbols, ids, lots and the log behave.
use crate::binary64::Binary64;
use crate::json::JsonTree;
use crate::order::{asset_id, before_zero, id_at, packed_symbol, symbol_text};
use crate::order::{
    Order, OrderRequest, OrderRequestView, OrderStatus, OrderView, RealPosition, RealPositionView,
};
use crate::pricing::{lot_size_of, rounded_quantity, stop_factor, Instrument};
use crate::state::{SimOrder, Sizing};
use crate::throttle::TokenBucket;
use crate::trade_ring::{
    exited, law_exit_touches_one, log_exit, newest_first, newest_with_id, ring_push,
};
use vstd::prelude::*;
use vstd::utf8::{encode_utf8, valid_utf8};

verus! {

/// A request's view shows each of its fields.
pub proof fn law_request_view_shows_fields(r: OrderRequest)
    ensures
        r@ == (OrderRequestView {
            id: r.id,
            symbol_idx: r.symbol_idx,
            symbol: r.symbol@,
            symbol_name: r.symbol_name@,
            side: r.side,
            quantity: r.quantity,
            price: r.price,
            timeout_ms: r.timeout_ms,
            tp_price: r.tp_price,
            sl_price: r.sl_price,
        }),
{
}

/// An order's view shows each of its fields.
pub proof fn law_order_view_shows_fields(o: Order)
    ensures
        o@ == (OrderView {
            id: o.id,
            symbol: o.symbol@,
            side: o.side,
            quantity: o.quantity,
            price: o.price,
            status: o.status,
            filled_qty: o.filled_qty,
            filled_price: o.filled_price,
            created_ns: o.created_ns,
            latency_ns: o.latency_ns,
            pnl: o.pnl,
            exit_price: o.exit_price,
            exit_reason: o.exit_reason@,
        }),
{
}

/// A position's view shows each of its fields.
pub proof fn law_position_view_shows_fields(p: RealPosition)
    ensures
        p@ == (RealPositionView {
            symbol: p.symbol@,
            side: p.side,
            entry_price: p.entry_price,
            quantity: p.quantity,
            tp_price: p.tp_price,
            sl_price: p.sl_price,
            entry_ts_ms: p.entry_ts_ms,
        }),
{
}

/// A simulated order's view shows each of its fields.
pub proof fn law_sim_order_view_shows_fields(o: SimOrder)
    ensures
        o@.order_id == o.order_id,
        o@.symbol == o.symbol@,
        o@.side == o.side,
        o@.quantity == o.quantity,
{
}

/// A request has a bracket exactly if both prices are above zero.
pub proof fn law_bracket_needs_both_prices(r: OrderRequestView)
    ensures
        r.has_bracket() <==> r.tp_price.positive() && r.sl_price.positive(),
{
}

/// Replacing the quantity changes the quantity alone.
pub proof fn law_quantity_is_replaced(r: OrderRequestView, quantity: Binary64)
    ensures
        r.with_quantity(quantity).quantity == quantity,
        r.with_quantity(quantity) == (OrderRequestView {
            quantity: r.with_quantity(quantity).quantity,
            ..r
        }),
{
}

/// Ids count up from the start as long as they fit.
pub proof fn law_ids_count_up(start: u64, k: nat)
    ensures
        start + k <= u64::MAX ==> id_at(start, k) == start + k,
        start + k == 0x1_0000_0000_0000_0000 ==> id_at(start, k) == 0,
{
}

/// Each listed symbol has its asset number, and no other symbol has one but zero.
pub proof fn law_asset_numbers(symbol: Seq<char>)
    ensures
        asset_id(symbol) == 1 <==> symbol == "ETH"@,
        asset_id(symbol) == 2 <==> symbol == "SOL"@,
        asset_id(symbol) == 3 <==> symbol == "AVAX"@,
        asset_id(symbol) == 4 <==> symbol == "ARB"@,
        asset_id(symbol) <= 4,
        asset_id("BTC"@) == 0,
{
    reveal_strlit("BTC");
    reveal_strlit("ETH");
    reveal_strlit("SOL");
    reveal_strlit("AVAX");
    reveal_strlit("ARB");
    assert("ETH"@[0] == 'E' && "SOL"@[0] == 'S' && "BTC"@[0] == 'B');
    assert("AVAX"@[1] == 'V' && "ARB"@[1] == 'R' && "AVAX"@[0] == 'A' && "ARB"@[0] == 'A');
}

/// A packed symbol has eight bytes: those of the symbol as far as they go, then
/// zeros.
pub proof fn law_packed_symbol_bytes(symbol: Seq<char>, i: int)
    requires
        0 <= i < 8,
    ensures
        packed_symbol(symbol).len() == 8,
        i < encode_utf8(symbol).len() ==> packed_symbol(symbol)[i] == encode_utf8(symbol)[i],
        i >= encode_utf8(symbol).len() ==> packed_symbol(symbol)[i] == 0,
{
}

/// The text of a packed symbol has the bytes before the first zero, if they are
/// UTF-8; otherwise it is `BTC`.
pub proof fn law_symbol_text_ends_at_zero(packed: Seq<u8>, end: int)
    requires
        0 <= end <= packed.len(),
        forall|j: int| 0 <= j < end ==> packed[j] != 0,
        end < packed.len() ==> packed[end] == 0,
    ensures
        valid_utf8(packed.take(end)) ==> encode_utf8(symbol_text(packed)) == packed.take(end),
        !valid_utf8(packed.take(end)) ==> symbol_text(packed) == "BTC"@,
{
    lemma_before_zero(packed, end);
    if valid_utf8(packed.take(end)) {
        vstd::utf8::decode_utf8_encode_utf8(packed.take(end));
    }
}

proof fn lemma_before_zero(bytes: Seq<u8>, end: int)
    requires
        0 <= end <= bytes.len(),
        forall|j: int| 0 <= j < end ==> bytes[j] != 0,
        end < bytes.len() ==> bytes[end] == 0,
    ensures
        before_zero(bytes) == bytes.take(end),
    decreases bytes.len(),
{
    if end > 0 {
        assert forall|j: int| 0 <= j < end - 1 implies bytes.skip(1)[j] != 0 by {
            assert(bytes.skip(1)[j] == bytes[j + 1]);
        }
        lemma_before_zero(bytes.skip(1), end - 1);
        assert(seq![bytes[0]] + bytes.skip(1).take(end - 1) =~= bytes.take(end));
    } else {
        assert(bytes.take(0) =~= Seq::<u8>::empty());
    }
}

/// The lot size is that of the first instrument listed under the symbol.
pub proof fn law_lot_size_is_the_first_listed(
    instruments: Seq<Instrument>,
    symbol: Seq<char>,
    k: int,
)
    requires
        0 <= k < instruments.len(),
        instruments[k].symbol@ == symbol,
        forall|j: int| 0 <= j < k ==> (#[trigger] instruments[j]).symbol@ != symbol,
    ensures
        lot_size_of(instruments, symbol) == instruments[k].lot_size,
    decreases instruments.len(),
{
    if k > 0 {
        assert(instruments[0].symbol@ != symbol);
        let rest = instruments.skip(1);
        assert forall|j: int| 0 <= j < k - 1 implies (#[trigger] rest[j]).symbol@ != symbol by {
            assert(rest[j] == instruments[j + 1]);
        }
        assert(rest[k - 1] == instruments[k]);
        law_lot_size_is_the_first_listed(rest, symbol, k - 1);
    }
}

/// A symbol that is not listed has a lot size of a thousandth.
pub proof fn law_lot_size_of_unlisted(instruments: Seq<Instrument>, symbol: Seq<char>)
    requires
        forall|j: int| 0 <= j < instruments.len() ==> (#[trigger] instruments[j]).symbol@ != symbol,
    ensures
        lot_size_of(instruments, symbol).bits == 0x3f50_624d_d2f1_a9fc,
    decreases instruments.len(),
{
    if instruments.len() > 0 {
        assert(instruments[0].symbol@ != symbol);
        let rest = instruments.skip(1);
        assert forall|j: int| 0 <= j < rest.len() implies (#[trigger] rest[j]).symbol@ != symbol by {
            assert(rest[j] == instruments[j + 1]);
        }
        law_lot_size_of_unlisted(rest, symbol);
    }
}

/// A quantity is rounded exactly if the lot size is above zero or no number; a
/// request's by the lot size of its own symbol.
pub proof fn law_rounding_needs_a_lot(
    qty: Binary64,
    lot_size: Binary64,
    nearest: Binary64,
    req: OrderRequestView,
    sizing: Sizing,
)
    ensures
        lot_size.is_nan() || lot_size.number() > 0 ==> rounded_quantity(qty, lot_size, nearest)
            == nearest,
        !lot_size.is_nan() && lot_size.number() <= 0 ==> rounded_quantity(qty, lot_size, nearest)
            == qty,
        sizing.rounded(req) == rounded_quantity(
            req.quantity,
            lot_size_of(sizing.instruments@, req.symbol_name),
            sizing.nearest_multiple,
        ),
{
    crate::number_laws::law_magnitudes_double(0);
}

/// A stop that buys may pay five hundredths more than its trigger, one that sells may
/// take five hundredths less.
pub proof fn law_stop_factors()
    ensures
        stop_factor(true).bits == 0x3ff0_cccc_cccc_cccd,
        stop_factor(false).bits == 0x3fee_6666_6666_6666,
{
}

/// Pushing puts the order at the end; a ring of five hundred loses its oldest entry
/// for it, a smaller one none.
pub proof fn law_push_keeps_the_rest(log: Seq<OrderView>, order: OrderView)
    requires
        log.len() <= 500,
    ensures
        ring_push(log, order).last() == order,
        ring_push(log, order).len() == (if log.len() < 500 {
            log.len() + 1
        } else {
            500
        }),
        ring_push(log, order).drop_last() == (if log.len() < 500 {
            log
        } else {
            log.skip(1)
        }),
{
    if log.len() < 500 {
        assert(ring_push(log, order).drop_last() =~= log);
    } else {
        assert(ring_push(log, order).drop_last() =~= log.skip(1));
    }
}

/// Reading gives as many entries as asked for, or all, the newest first.
pub proof fn law_recent_reads_backwards(log: Seq<OrderView>, n: nat, i: int)
    ensures
        n <= log.len() ==> newest_first(log, n).len() == n,
        n > log.len() ==> newest_first(log, n).len() == log.len(),
        0 <= i < n && i < log.len() ==> newest_first(log, n)[i] == log[log.len() - 1 - i],
{
}

/// The exit is written to the newest entry with the id: price, reason and profit, and
/// that it was filled. Everything else about the entry stays.
pub proof fn law_exit_is_written_to_the_newest(
    log: Seq<OrderView>,
    id: u64,
    k: int,
    exit_price: Binary64,
    exit_reason: Seq<char>,
    pnl: Binary64,
)
    requires
        0 <= k < log.len(),
        log[k].id == id,
        forall|j: int| k < j < log.len() ==> (#[trigger] log[j]).id != id,
    ensures
        log_exit(log, id, exit_price, exit_reason, pnl) == log.update(
            k,
            OrderView { exit_price, exit_reason, pnl, status: OrderStatus::Filled, ..log[k] },
        ),
{
    lemma_newest_with_id(log, id, k);
    assert(exited(log[k], exit_price, exit_reason, pnl) == (OrderView {
        exit_price,
        exit_reason,
        pnl,
        status: OrderStatus::Filled,
        ..log[k]
    }));
}

proof fn lemma_newest_with_id(log: Seq<OrderView>, id: u64, k: int)
    requires
        0 <= k < log.len(),
        log[k].id == id,
        forall|j: int| k < j < log.len() ==> (#[trigger] log[j]).id != id,
    ensures
        newest_with_id(log, id) == Some(k),
    decreases log.len(),
{
    if k < log.len() - 1 {
        let rest = log.drop_last();
        assert(log[log.len() - 1].id != id);
        assert forall|j: int| k < j < rest.len() implies (#[trigger] rest[j]).id != id by {
            assert(rest[j] == log[j]);
        }
        lemma_newest_with_id(rest, id, k);
    }
}

/// Without an entry with the id, recording an exit changes nothing.
pub proof fn law_exit_of_unknown_order(
    log: Seq<OrderView>,
    id: u64,
    exit_price: Binary64,
    exit_reason: Seq<char>,
    pnl: Binary64,
)
    requires
        forall|j: int| 0 <= j < log.len() ==> (#[trigger] log[j]).id != id,
    ensures
        log_exit(log, id, exit_price, exit_reason, pnl) == log,
{
    law_exit_touches_one(log, id, exit_price, exit_reason, pnl);
    match newest_with_id(log, id) {
        Some(k) => {
            assert(log[k].id == id);
        },
        None => {},
    }
}

/// Within a second of the window's start an order takes one of the tokens left, if
/// there is one; after a second, or once the clock was set back, it takes the first
/// of a full window that starts with it.
pub proof fn law_throttle_step(b: TokenBucket, now: u64)
    ensures
        b.window_ns <= now < b.window_ns + 1_000_000_000 ==> {
            &&& b.grants(now) <==> b.tokens > 0
            &&& b.after(now).window_ns == b.window_ns
            &&& b.after(now).max_per_sec == b.max_per_sec
            &&& b.after(now).tokens == (if b.tokens > 0 {
                b.tokens - 1
            } else {
                0
            })
        },
        now >= b.window_ns + 1_000_000_000 || (now < b.window_ns && now + 0x1_0000_0000_0000_0000
            - b.window_ns >= 1_000_000_000) ==> {
            &&& b.grants(now) <==> b.max_per_sec > 0
            &&& b.after(now).window_ns == now
            &&& b.after(now).max_per_sec == b.max_per_sec
            &&& b.after(now).tokens == (if b.max_per_sec > 0 {
                b.max_per_sec - 1
            } else {
                0
            })
        },
        b.expired(now) <==> now >= b.window_ns + 1_000_000_000 || (now < b.window_ns && now
            + 0x1_0000_0000_0000_0000 - b.window_ns >= 1_000_000_000),
        b.wf() <==> b.tokens <= b.max_per_sec,
        TokenBucket::fresh(b.max_per_sec, now) == (TokenBucket {
            tokens: b.max_per_sec,
            max_per_sec: b.max_per_sec,
            window_ns: now,
        }),
{
}

/// An object's members are found under their keys and nothing is found elsewhere;
/// only a string has a text, and only an array has elements.
pub proof fn law_json_access(
    members: Map<Seq<char>, JsonTree>,
    key: Seq<char>,
    text: Seq<char>,
    items: Seq<JsonTree>,
    other: JsonTree,
)
    ensures
        members.contains_key(key) ==> JsonTree::Object(members).member(key) == members[key],
        !members.contains_key(key) ==> JsonTree::Object(members).member(key) == JsonTree::Null,
        !(other is Object) ==> other.member(key) == JsonTree::Null,
        JsonTree::Text(text).text() == Some(text),
        !(other is Text) ==> other.text() is None,
        JsonTree::Array(items).items() == Some(items),
        !(other is Array) ==> other.items() is None,
{
}

} // verus!
