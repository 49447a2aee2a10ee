//! When an order is admitted, when it is refused, and how a position was closed.
use crate::binary64::Binary64;
use crate::error::ExecErrorView;
use crate::order::{OrderRequestView, RealPositionView, Side};
use crate::state::{
    closes_as, exit_of, exit_price_of, real_refusal, sim_order_of, sim_refusal, EngineView,
};
use crate::state::{BookLevel, ClosedPosition, ExitReason, SimSide, Sizing};
use vstd::prelude::*;

verus! {

/// Once the kill switch is off and the throttle grants, a request is refused for
/// its size exactly if its value exceeds the limit, on either side and for every
/// symbol; no other request is ever refused for that.
pub proof fn law_risk_limit_binds_every_request(
    s: EngineView,
    req: OrderRequestView,
    now: u64,
    sizing: Sizing,
)
    ensures
        real_refusal(s, req, now, sizing) == Some(ExecErrorView::RiskSize) <==> !s.risk.kill_switch
            && s.throttle.grants(now) && !sizing.limit.is_nan() && !sizing.notional.is_nan()
            && sizing.limit.number() < sizing.notional.number(),
        real_refusal(s, req, now, sizing) is None ==> !sizing.limit.lt_spec(sizing.notional),
{
}

/// A request is admitted exactly if the kill switch is off, the throttle grants, its
/// value is within the limit, and something is left of its quantity once rounded.
pub proof fn law_admission_needs_all_four(
    s: EngineView,
    req: OrderRequestView,
    now: u64,
    sizing: Sizing,
)
    ensures
        real_refusal(s, req, now, sizing) is None <==> {
            &&& !s.risk.kill_switch
            &&& s.throttle.grants(now)
            &&& !sizing.limit.lt_spec(sizing.notional)
            &&& !sizing.rounded(req).le_spec(Binary64 { bits: 0 })
        },
        real_refusal(s, req, now, sizing) == Some(ExecErrorView::KillSwitch)
            <==> s.risk.kill_switch,
        real_refusal(s, req, now, sizing) == Some(ExecErrorView::Throttled)
            <==> !s.risk.kill_switch && !s.throttle.grants(now),
        real_refusal(s, req, now, sizing) == Some(ExecErrorView::InvalidSize(sizing.lot_text@))
            <==> {
            &&& !s.risk.kill_switch
            &&& s.throttle.grants(now)
            &&& !sizing.limit.lt_spec(sizing.notional)
            &&& sizing.rounded(req).le_spec(Binary64 { bits: 0 })
        },
        real_refusal(s, req, now, sizing) matches Some(e) ==> e == ExecErrorView::KillSwitch || e
            == ExecErrorView::Throttled || e == ExecErrorView::RiskSize || e
            == ExecErrorView::InvalidSize(sizing.lot_text@),
{
}

/// Whether a request is admitted does not depend on its id, side, price, deadline or
/// bracket, nor on what the engine has in its books: only on the switch, the
/// throttle, the sizes, and the symbol and quantity that are rounded.
pub proof fn law_admission_ignores_the_rest(
    s: EngineView,
    t: EngineView,
    req: OrderRequestView,
    other: OrderRequestView,
    now: u64,
    sizing: Sizing,
)
    requires
        s.risk.kill_switch == t.risk.kill_switch,
        s.throttle == t.throttle,
        req.quantity == other.quantity,
        req.symbol_name == other.symbol_name,
    ensures
        real_refusal(s, req, now, sizing) == real_refusal(t, other, now, sizing),
{
}

/// With the kill switch off, a token granted and both sides of the book filled, a
/// buy is filtered out exactly if the bid's size over the ask's stays below the
/// threshold, and a sale exactly if the ask's size over the bid's does.
pub proof fn law_filter_holds_both_sides_to_the_threshold(
    s: EngineView,
    now: u64,
    book: BookLevel,
)
    requires
        !s.risk.kill_switch,
        s.throttle.grants(now),
        book.bid_size.positive(),
        book.ask_size.positive(),
    ensures
        sim_refusal(s, Side::Buy, now, Some(book)) == (if book.threshold.le_spec(
            book.bid_over_ask,
        ) {
            None::<ExecErrorView>
        } else {
            Some(ExecErrorView::ImbalanceFilter)
        }),
        sim_refusal(s, Side::Sell, now, Some(book)) == (if book.threshold.le_spec(
            book.ask_over_bid,
        ) {
            None::<ExecErrorView>
        } else {
            Some(ExecErrorView::ImbalanceFilter)
        }),
{
}

/// A book turned round treats a sale as the book itself treats a buy.
pub proof fn law_filter_is_symmetric(s: EngineView, now: u64, book: BookLevel)
    ensures
        sim_refusal(s, Side::Sell, now, Some(book)) == sim_refusal(
            s,
            Side::Buy,
            now,
            Some(
                BookLevel {
                    bid_size: book.ask_size,
                    ask_size: book.bid_size,
                    bid_over_ask: book.ask_over_bid,
                    ask_over_bid: book.bid_over_ask,
                    threshold: book.threshold,
                },
            ),
        ),
{
}

/// Without a book, or with one of its sides empty, the filter refuses nothing: only
/// the kill switch and the throttle do, and they do so whatever the book.
pub proof fn law_filter_needs_a_full_book(
    s: EngineView,
    side: Side,
    now: u64,
    book: Option<BookLevel>,
)
    ensures
        s.risk.kill_switch ==> sim_refusal(s, side, now, book) == Some(ExecErrorView::KillSwitch),
        !s.risk.kill_switch && !s.throttle.grants(now) ==> sim_refusal(s, side, now, book) == Some(
            ExecErrorView::Throttled,
        ),
        !s.risk.kill_switch && s.throttle.grants(now) && (book matches Some(level) ==> (
        !level.bid_size.positive() || !level.ask_size.positive())) ==> sim_refusal(
            s,
            side,
            now,
            book,
        ) is None,
{
}

/// What the simulated account is asked to open shows the request's id, whole symbol
/// and quantity; a buy opens a long position, a sale a short one.
pub proof fn law_simulated_order_shows_request(req: OrderRequestView)
    ensures
        sim_order_of(req).order_id == req.id,
        sim_order_of(req).symbol == req.symbol_name,
        sim_order_of(req).quantity == req.quantity,
        sim_order_of(req).side == SimSide::Long <==> req.side == Side::Buy,
        sim_order_of(req).side == SimSide::Short <==> req.side == Side::Sell,
{
}

/// With both bracket prices and a market price at hand, a long position was closed
/// by its take profit exactly if the market stands at or above that price, and a
/// short one exactly if it stands at or below; everywhere else, also between the two
/// bracket prices and whatever the entry was, it was the stop loss.
pub proof fn law_take_profit_only_beyond_its_price(position: RealPositionView, market: Binary64)
    requires
        position.tp_price.positive(),
        position.sl_price.positive(),
        market.positive(),
    ensures
        position.side == Side::Buy ==> (exit_of(position, market) == ExitReason::TakeProfit
            <==> position.tp_price.number() <= market.number()),
        position.side == Side::Sell ==> (exit_of(position, market) == ExitReason::TakeProfit
            <==> market.number() <= position.tp_price.number()),
        exit_of(position, market) == ExitReason::TakeProfit || exit_of(position, market)
            == ExitReason::StopLoss,
{
}

/// Without a market price, or without both bracket prices, the take profit is
/// assumed exactly if its price is set.
pub proof fn law_exit_without_market(position: RealPositionView, market: Binary64)
    requires
        !market.positive() || !position.tp_price.positive() || !position.sl_price.positive(),
    ensures
        exit_of(position, market) == ExitReason::TakeProfit <==> position.tp_price.positive(),
{
}

/// How a position was closed depends on its side, its bracket prices and the market
/// alone.
pub proof fn law_exit_ignores_the_entry(
    position: RealPositionView,
    other: RealPositionView,
    market: Binary64,
)
    requires
        position.side == other.side,
        position.tp_price == other.tp_price,
        position.sl_price == other.sl_price,
    ensures
        exit_of(position, market) == exit_of(other, market),
{
}

/// A closed position shows the bracket price that its reason names; its profit is
/// counted from exit to entry for a long position, from entry to exit for a short
/// one.
pub proof fn law_closed_position_shows_exit(
    closed: ClosedPosition,
    position: RealPositionView,
    market: Binary64,
)
    requires
        closes_as(closed, position, market),
    ensures
        closed.position@ == position,
        closed.exit_reason == exit_of(position, market),
        closed.exit_reason == ExitReason::TakeProfit ==> closed.exit_price == position.tp_price,
        closed.exit_reason == ExitReason::StopLoss ==> closed.exit_price == position.sl_price,
        exit_price_of(position, ExitReason::TakeProfit) == position.tp_price,
        exit_price_of(position, ExitReason::StopLoss) == position.sl_price,
        position.side == Side::Buy ==> closed.pnl_minuend == closed.exit_price
            && closed.pnl_subtrahend == position.entry_price,
        position.side == Side::Sell ==> closed.pnl_minuend == position.entry_price
            && closed.pnl_subtrahend == closed.exit_price,
{
}

/// The texts of the two reasons.
pub proof fn law_exit_texts()
    ensures
        ExitReason::TakeProfit.text() == "TP"@,
        ExitReason::StopLoss.text() == "SL"@,
{
}

} // verus!
