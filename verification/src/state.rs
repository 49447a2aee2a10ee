//! What the engine knows, and how each event changes it.
use crate::binary64::Binary64;
use crate::error::{ExecError, ExecErrorView};
use crate::order::{
    open_order, OrderRequest, OrderRequestView, OrderStatus, OrderView, RealPosition,
    RealPositionView, Side,
};
use crate::pricing::{lot_size_of, rounded_quantity, Instrument};
use crate::throttle::TokenBucket;
use crate::trade_ring::{ring_push, RING_CAPACITY};
use vstd::prelude::*;

verus! {

/// `n + 1`, wrapping after the largest value.
pub open spec fn next_u64(n: u64) -> u64 {
    ((n + 1) % 0x1_0000_0000_0000_0000) as u64
}

/// `n + 1`, wrapping after the largest value.
pub open spec fn next_u32(n: u32) -> u32 {
    ((n + 1) % 0x1_0000_0000) as u32
}

/// `n - 1`, wrapping before zero.
pub open spec fn prior_u32(n: u32) -> u32 {
    ((n - 1) % 0x1_0000_0000) as u32
}

/// What the engine shares with the risk controls.
#[derive(Clone, Copy, Debug, PartialEq, Eq, Structural)]
pub struct RiskState {
    pub kill_switch: bool,
    pub open_positions: u32,
}

/// Counts since the engine was started, and the orders in flight.
#[derive(Clone, Copy, Debug, PartialEq, Eq, Structural)]
pub struct ExecStats {
    pub orders: u64,
    pub fills: u64,
    pub rejects: u64,
    pub active: u64,
}

/// How many orders the throttle lets through in a second.
pub const MAX_ORDERS_PER_SEC: u64 = 50;

/// What the engine knows.
#[verifier::ext_equal]
pub struct EngineView {
    /// Orders in flight, by id.
    pub active: Map<u64, OrderView>,
    /// The newest orders, oldest first.
    pub log: Seq<OrderView>,
    /// Bracketed positions on the exchange, by the id of the order that opened
    /// them.
    pub positions: Map<u64, RealPositionView>,
    pub throttle: TokenBucket,
    pub order_count: u64,
    pub fill_count: u64,
    pub reject_count: u64,
    pub risk: RiskState,
}

impl EngineView {
    pub open spec fn wf(self) -> bool {
        &&& self.log.len() <= RING_CAPACITY
        &&& self.throttle.wf()
        &&& self.active.dom().finite()
        &&& self.positions.dom().finite()
    }

    /// With one position more.
    pub open spec fn opened(self) -> EngineView {
        EngineView {
            risk: RiskState { open_positions: next_u32(self.risk.open_positions), ..self.risk },
            ..self
        }
    }

    /// With one position less.
    pub open spec fn closed(self) -> EngineView {
        EngineView {
            risk: RiskState { open_positions: prior_u32(self.risk.open_positions), ..self.risk },
            ..self
        }
    }

    /// After the throttle has been asked at `now`.
    pub open spec fn asked(self, now: u64) -> EngineView {
        EngineView { throttle: self.throttle.after(now), ..self }
    }

    /// With an order moved from flight to the log, as `record` leaves it.
    pub open spec fn archived(self, id: u64, record: spec_fn(OrderView) -> OrderView) -> EngineView {
        EngineView {
            active: self.active.remove(id),
            log: if self.active.contains_key(id) {
                ring_push(self.log, record(self.active[id]))
            } else {
                self.log
            },
            ..self
        }
    }

    /// After a fill. A position that stays open under a bracket is counted on.
    pub open spec fn filled(
        self,
        id: u64,
        fill_price: Binary64,
        qty: Binary64,
        latency_ns: u64,
        keep_open: bool,
    ) -> EngineView {
        let s = self.archived(
            id,
            |o: OrderView|
                OrderView {
                    status: OrderStatus::Filled,
                    filled_qty: qty,
                    filled_price: fill_price,
                    latency_ns,
                    ..o
                },
        );
        let counted = EngineView { fill_count: next_u64(s.fill_count), ..s };
        if keep_open {
            counted
        } else {
            counted.closed()
        }
    }

    /// After a rejection.
    pub open spec fn rejected(self, id: u64, latency_ns: u64) -> EngineView {
        let s = self.archived(
            id,
            |o: OrderView| OrderView { status: OrderStatus::Rejected, latency_ns, ..o },
        );
        EngineView { reject_count: next_u64(s.reject_count), ..s }.closed()
    }
}

/// An engine with nothing in flight, whose throttle starts at `now`.
pub open spec fn fresh_engine(risk: RiskState, now: u64) -> EngineView {
    EngineView {
        active: Map::empty(),
        log: Seq::empty(),
        positions: Map::empty(),
        throttle: TokenBucket::fresh(MAX_ORDERS_PER_SEC, now),
        order_count: 0,
        fill_count: 0,
        reject_count: 0,
        risk,
    }
}

/// What a request is measured by: its value and what one trade may be worth, the
/// instruments with their lot sizes, the multiple of the symbol's lot size that is
/// nearest to the quantity, and that lot size as displayed.
pub struct Sizing<'a> {
    pub notional: Binary64,
    pub limit: Binary64,
    pub instruments: &'a Vec<Instrument>,
    pub nearest_multiple: Binary64,
    pub lot_text: &'a str,
}

impl<'a> Sizing<'a> {
    /// The quantity that goes out for a request: rounded to the lot size of its
    /// symbol.
    pub open spec fn rounded(self, req: OrderRequestView) -> Binary64 {
        rounded_quantity(
            req.quantity,
            lot_size_of(self.instruments@, req.symbol_name),
            self.nearest_multiple,
        )
    }
}

/// Why a request is refused, if it is: the first reason in this order.
pub open spec fn real_refusal(
    s: EngineView,
    req: OrderRequestView,
    now: u64,
    sizing: Sizing,
) -> Option<ExecErrorView> {
    if s.risk.kill_switch {
        Some(ExecErrorView::KillSwitch)
    } else if !s.throttle.grants(now) {
        Some(ExecErrorView::Throttled)
    } else if sizing.limit.lt_spec(sizing.notional) {
        Some(ExecErrorView::RiskSize)
    } else if sizing.rounded(req).le_spec(Binary64 { bits: 0 }) {
        Some(ExecErrorView::InvalidSize(sizing.lot_text@))
    } else {
        None
    }
}

/// The engine after a request for a real order. A refusal leaves no trace but in
/// the throttle, and under the kill switch not even there.
pub open spec fn after_real_request(
    s: EngineView,
    req: OrderRequestView,
    t_submit: u64,
    now: u64,
    sizing: Sizing,
) -> EngineView {
    let zero = Binary64 { bits: 0 };
    if s.risk.kill_switch {
        s
    } else if real_refusal(s, req, now, sizing) is Some {
        s.asked(now)
    } else {
        EngineView {
            active: s.active.insert(
                req.id,
                open_order(req.with_quantity(sizing.rounded(req)), zero, zero, t_submit),
            ),
            order_count: next_u64(s.order_count),
            ..s.asked(now)
        }.opened()
    }
}

/// The order book's best level, the ratios of its sizes, and the ratio that a
/// trade asks for.
#[derive(Clone, Copy, Debug, PartialEq, Eq, Structural)]
pub struct BookLevel {
    pub bid_size: Binary64,
    pub ask_size: Binary64,
    pub bid_over_ask: Binary64,
    pub ask_over_bid: Binary64,
    pub threshold: Binary64,
}

/// The book has both sides, and does not lean far enough the trade's way.
pub open spec fn leans_away(book: BookLevel, side: Side) -> bool {
    let ratio = match side {
        Side::Buy => book.bid_over_ask,
        Side::Sell => book.ask_over_bid,
    };
    book.bid_size.positive() && book.ask_size.positive() && !book.threshold.le_spec(ratio)
}

/// Why a simulated order is refused, if it is: the first reason in this order.
pub open spec fn sim_refusal(
    s: EngineView,
    side: Side,
    now: u64,
    book: Option<BookLevel>,
) -> Option<ExecErrorView> {
    if s.risk.kill_switch {
        Some(ExecErrorView::KillSwitch)
    } else if !s.throttle.grants(now) {
        Some(ExecErrorView::Throttled)
    } else if book is Some && leans_away(book->Some_0, side) {
        Some(ExecErrorView::ImbalanceFilter)
    } else {
        None
    }
}

/// The side of a simulated position.
#[derive(Clone, Copy, Debug, PartialEq, Eq, Structural)]
pub enum SimSide {
    Long,
    Short,
}

/// What the simulated account is asked to open.
#[derive(Debug)]
pub struct SimOrder {
    pub order_id: u64,
    pub symbol: String,
    pub side: SimSide,
    pub quantity: Binary64,
}

/// What a `SimOrder` says.
pub struct SimOrderView {
    pub order_id: u64,
    pub symbol: Seq<char>,
    pub side: SimSide,
    pub quantity: Binary64,
}

impl View for SimOrder {
    type V = SimOrderView;

    open spec fn view(&self) -> SimOrderView {
        SimOrderView {
            order_id: self.order_id,
            symbol: self.symbol@,
            side: self.side,
            quantity: self.quantity,
        }
    }
}

/// What the simulated account is asked to open for a request: the same quantity
/// under the same id and the whole symbol.
pub open spec fn sim_order_of(req: OrderRequestView) -> SimOrderView {
    SimOrderView {
        order_id: req.id,
        symbol: req.symbol_name,
        side: match req.side {
            Side::Buy => SimSide::Long,
            Side::Sell => SimSide::Short,
        },
        quantity: req.quantity,
    }
}

/// What became of an order that was sent.
#[derive(Debug)]
pub enum PlaceOutcome {
    /// Filled at this average price.
    Filled(Binary64),
    /// Not filled.
    Failed(ExecError),
    /// No answer in time.
    TimedOut,
}

/// An order that has been filled, and whether its bracket is to be placed.
#[derive(Clone, Copy, Debug, PartialEq, Eq, Structural)]
pub struct SettledFill {
    pub order_id: u64,
    pub place_bracket: bool,
}

/// A request that was admitted, with its rounded quantity, and when.
#[derive(Debug)]
pub struct Admitted {
    pub request: OrderRequest,
    pub t_submit: u64,
}

/// The position that a filled request opens.
pub open spec fn opened_position(
    req: OrderRequestView,
    fill_price: Binary64,
    entry_ts_ms: u64,
) -> RealPositionView {
    RealPositionView {
        symbol: req.symbol_name,
        side: req.side,
        entry_price: fill_price,
        quantity: req.quantity,
        tp_price: req.tp_price,
        sl_price: req.sl_price,
        entry_ts_ms,
    }
}

/// The engine after what became of an order: a fill is recorded, and tracked if it
/// has a bracket; anything else is a rejection.
pub open spec fn after_outcome(
    s: EngineView,
    req: OrderRequestView,
    latency_ns: u64,
    entry_ts_ms: u64,
    outcome: PlaceOutcome,
) -> EngineView {
    match outcome {
        PlaceOutcome::Filled(price) => {
            let f = s.filled(req.id, price, req.quantity, latency_ns, req.has_bracket());
            if req.has_bracket() {
                EngineView {
                    positions: f.positions.insert(
                        req.id,
                        opened_position(req, price, entry_ts_ms),
                    ),
                    ..f
                }
            } else {
                f
            }
        },
        _ => s.rejected(req.id, latency_ns),
    }
}

/// Why a position was closed.
#[derive(Clone, Copy, Debug, PartialEq, Eq, Structural)]
pub enum ExitReason {
    TakeProfit,
    StopLoss,
}

impl ExitReason {
    pub open spec fn text(self) -> Seq<char> {
        match self {
            ExitReason::TakeProfit => "TP"@,
            ExitReason::StopLoss => "SL"@,
        }
    }

    pub fn as_str(&self) -> (r: &'static str)
        ensures
            r@ == self.text(),
    {
        match self {
            ExitReason::TakeProfit => "TP",
            ExitReason::StopLoss => "SL",
        }
    }
}

/// How a bracketed position was closed, told by where the market stands: beyond
/// the take-profit price it was the take profit, otherwise the stop loss. Without a
/// market price, or without both bracket prices, the take profit is assumed if it
/// is set.
pub open spec fn exit_of(position: RealPositionView, market: Binary64) -> ExitReason {
    if position.tp_price.positive() && position.sl_price.positive() && market.positive() {
        let beyond = match position.side {
            Side::Buy => position.tp_price.le_spec(market),
            Side::Sell => market.le_spec(position.tp_price),
        };
        if beyond {
            ExitReason::TakeProfit
        } else {
            ExitReason::StopLoss
        }
    } else if position.tp_price.positive() {
        ExitReason::TakeProfit
    } else {
        ExitReason::StopLoss
    }
}

/// The price that goes with a reason.
pub open spec fn exit_price_of(position: RealPositionView, reason: ExitReason) -> Binary64 {
    match reason {
        ExitReason::TakeProfit => position.tp_price,
        ExitReason::StopLoss => position.sl_price,
    }
}

/// A position that the exchange no longer holds. Its profit is
/// `(pnl_minuend - pnl_subtrahend) * quantity`, which the caller works out.
#[derive(Debug)]
pub struct ClosedPosition {
    pub position: RealPosition,
    pub exit_price: Binary64,
    pub exit_reason: ExitReason,
    /// What the profit is counted from: the exit price of a long position, the
    /// entry price of a short one.
    pub pnl_minuend: Binary64,
    /// What is taken off it: the other of the two prices.
    pub pnl_subtrahend: Binary64,
}

/// The engine after a position was taken off its books; as it was where none is
/// tracked under that id.
pub open spec fn after_close(s: EngineView, id: u64) -> EngineView {
    if s.positions.contains_key(id) {
        EngineView { positions: s.positions.remove(id), ..s }.closed()
    } else {
        s
    }
}

/// The engine after the positions with the given ids were closed, one after the
/// other.
pub open spec fn after_closes(s: EngineView, ids: Seq<u64>) -> EngineView
    decreases ids.len(),
{
    if ids.len() == 0 {
        s
    } else {
        after_close(after_closes(s, ids.drop_last()), ids.last())
    }
}

/// `closed` tells how a position was closed while the market stood at `market`.
pub open spec fn closes_as(
    closed: ClosedPosition,
    position: RealPositionView,
    market: Binary64,
) -> bool {
    let reason = exit_of(position, market);
    let exit_price = exit_price_of(position, reason);
    &&& closed.position@ == position
    &&& closed.exit_reason == reason
    &&& closed.exit_price == exit_price
    &&& closed.pnl_minuend == (match position.side {
        Side::Buy => exit_price,
        Side::Sell => position.entry_price,
    })
    &&& closed.pnl_subtrahend == (match position.side {
        Side::Buy => position.entry_price,
        Side::Sell => exit_price,
    })
}

/// The ids of a list of positions.
pub open spec fn listed_ids(list: Seq<(u64, String)>) -> Seq<u64> {
    list.map_values(|e: (u64, String)| e.0)
}

/// The ids of a list of market prices.
pub open spec fn marked_ids(marks: Seq<(u64, Binary64)>) -> Seq<u64> {
    marks.map_values(|m: (u64, Binary64)| m.0)
}

/// An order that was cancelled.
pub open spec fn cancelled(order: OrderView) -> OrderView {
    OrderView { status: OrderStatus::Cancelled, ..order }
}

/// `log` after the orders with the given ids were cancelled one after the other.
pub open spec fn log_cancelled(
    log: Seq<OrderView>,
    active: Map<u64, OrderView>,
    ids: Seq<u64>,
) -> Seq<OrderView>
    decreases ids.len(),
{
    if ids.len() == 0 {
        log
    } else {
        ring_push(log_cancelled(log, active, ids.drop_last()), cancelled(active[ids.last()]))
    }
}

/// How a bracketed position was closed, told by where the market stands.
pub fn exit_reason_of(position: &RealPosition, market: &Binary64) -> (r: ExitReason)
    ensures
        r == exit_of(position@, *market),
{
    if position.tp_price.is_positive() && position.sl_price.is_positive() && market.is_positive() {
        let beyond: bool = match position.side {
            Side::Buy => position.tp_price.at_most(market),
            Side::Sell => market.at_most(&position.tp_price),
        };
        if beyond {
            ExitReason::TakeProfit
        } else {
            ExitReason::StopLoss
        }
    } else if position.tp_price.is_positive() {
        ExitReason::TakeProfit
    } else {
        ExitReason::StopLoss
    }
}

} // verus!
