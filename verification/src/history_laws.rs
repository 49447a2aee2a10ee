//! What holds of the engine after any run of real orders.
use crate::order::OrderRequestView;
use crate::state::{after_close, after_outcome, after_real_request, fresh_engine, next_u64, real_refusal};
use crate::state::{EngineView, PlaceOutcome, RiskState, Sizing};
use vstd::prelude::*;

verus! {

/// One thing that happens to the engine while it trades for real.
pub enum Event<'a> {
    /// A request is handed in, and admitted or refused.
    Requested { req: OrderRequestView, t_submit: u64, now: u64, sizing: Sizing<'a> },
    /// An order that was sent is settled.
    Settled { req: OrderRequestView, latency_ns: u64, entry_ts_ms: u64, outcome: PlaceOutcome },
    /// The risk controls set their state.
    RiskSet { risk: RiskState },
    /// A tracked position is closed.
    Closed { id: u64 },
}

/// The engine after an event.
pub open spec fn after_event(s: EngineView, event: Event) -> EngineView {
    match event {
        Event::Requested { req, t_submit, now, sizing } => after_real_request(
            s,
            req,
            t_submit,
            now,
            sizing,
        ),
        Event::Settled { req, latency_ns, entry_ts_ms, outcome } => after_outcome(
            s,
            req,
            latency_ns,
            entry_ts_ms,
            outcome,
        ),
        Event::RiskSet { risk } => EngineView { risk, ..s },
        Event::Closed { id } => after_close(s, id),
    }
}

/// The engine after some events, one after the other.
pub open spec fn after_events(s: EngineView, events: Seq<Event>) -> EngineView
    decreases events.len(),
{
    if events.len() == 0 {
        s
    } else {
        after_event(after_events(s, events.drop_last()), events.last())
    }
}

/// The event is a request that is admitted.
pub open spec fn admits(s: EngineView, event: Event) -> bool {
    match event {
        Event::Requested { req, now, sizing, .. } => real_refusal(s, req, now, sizing) is None,
        _ => false,
    }
}

/// How many requests are admitted in the course of the events.
pub open spec fn admissions(s: EngineView, events: Seq<Event>) -> nat
    decreases events.len(),
{
    if events.len() == 0 {
        0
    } else {
        admissions(s, events.drop_last()) + if admits(
            after_events(s, events.drop_last()),
            events.last(),
        ) {
            1nat
        } else {
            0nat
        }
    }
}

/// The id that an event requests an order under.
pub open spec fn requested_id(event: Event) -> Option<u64> {
    match event {
        Event::Requested { req, .. } => Some(req.id),
        _ => None,
    }
}

/// The id of the order that an event settles.
pub open spec fn settled_id(event: Event) -> Option<u64> {
    match event {
        Event::Settled { req, .. } => Some(req.id),
        _ => None,
    }
}

/// Every request has an id of its own, and what is settled is in flight.
pub open spec fn orderly(s: EngineView, events: Seq<Event>) -> bool {
    &&& forall|i: int, j: int|
        0 <= i < j < events.len() && requested_id(#[trigger] events[i]) is Some ==> requested_id(
            events[i],
        ) != requested_id(#[trigger] events[j])
    &&& forall|i: int|
        0 <= i < events.len() && settled_id(#[trigger] events[i]) is Some ==> after_events(
            s,
            events.take(i),
        ).active.contains_key(settled_id(events[i])->Some_0)
}

/// The order with the given id was admitted at event `i` and not settled since.
pub open spec fn in_flight_since(s: EngineView, events: Seq<Event>, id: u64, i: int) -> bool {
    &&& 0 <= i < events.len()
    &&& requested_id(events[i]) == Some(id)
    &&& admits(after_events(s, events.take(i)), events[i])
    &&& forall|j: int| i < j < events.len() ==> settled_id(#[trigger] events[j]) != Some(id)
}

proof fn lemma_orderly_prefix(s: EngineView, events: Seq<Event>)
    requires
        events.len() > 0,
        orderly(s, events),
    ensures
        orderly(s, events.drop_last()),
        events.take(events.len() - 1) == events.drop_last(),
{
    let rest = events.drop_last();
    assert(events.take(events.len() - 1) =~= rest);
    assert forall|i: int, j: int|
        0 <= i < j < rest.len() && requested_id(#[trigger] rest[i]) is Some implies requested_id(
        rest[i],
    ) != requested_id(#[trigger] rest[j]) by {
        assert(rest[i] == events[i] && rest[j] == events[j]);
    }
    assert forall|i: int|
        0 <= i < rest.len() && settled_id(#[trigger] rest[i]) is Some implies after_events(
        s,
        rest.take(i),
    ).active.contains_key(settled_id(rest[i])->Some_0) by {
        assert(rest[i] == events[i]);
        assert(rest.take(i) =~= events.take(i));
    }
}

/// An order is in flight only if it was admitted at some event and not settled
/// since.
pub proof fn law_in_flight_since_admission(s: EngineView, events: Seq<Event>, id: u64)
    requires
        s.active.is_empty(),
        orderly(s, events),
        after_events(s, events).active.contains_key(id),
    ensures
        exists|i: int| #[trigger] in_flight_since(s, events, id, i),
    decreases events.len(),
{
    assert(events.len() > 0);
    lemma_orderly_prefix(s, events);
    let rest = events.drop_last();
    let last = events.len() - 1;
    let before = after_events(s, rest);
    assert(events[last] == events.last());
    if admits(before, events.last()) && requested_id(events.last()) == Some(id) {
        assert(in_flight_since(s, events, id, last));
    } else {
        assert(before.active.contains_key(id));
        law_in_flight_since_admission(s, rest, id);
        let i = choose|i: int| #[trigger] in_flight_since(s, rest, id, i);
        assert(rest[i] == events[i]);
        assert(rest.take(i) =~= events.take(i));
        assert forall|j: int| i < j < events.len() implies settled_id(#[trigger] events[j]) != Some(
            id,
        ) by {
            if j < last {
                assert(rest[j] == events[j]);
            }
        }
        assert(in_flight_since(s, events, id, i));
    }
}

/// After any run of real orders on an engine that started with nothing in flight
/// and nothing counted, as many orders are counted as were admitted, and each of
/// them is in flight, filled or rejected. The counts are exact as long as the
/// admissions fit in 64 bits.
pub proof fn law_counts_balance(risk: RiskState, start: u64, events: Seq<Event>)
    requires
        orderly(fresh_engine(risk, start), events),
        admissions(fresh_engine(risk, start), events) <= u64::MAX,
    ensures
        ({
            let t = after_events(fresh_engine(risk, start), events);
            &&& t.order_count == admissions(fresh_engine(risk, start), events)
            &&& t.order_count == t.fill_count + t.reject_count + t.active.len()
            &&& t.active.dom().finite()
        }),
    decreases events.len(),
{
    let s = fresh_engine(risk, start);
    assert(s.active.is_empty());
    if events.len() == 0 {
        assert(s.active.dom() =~= Set::empty());
    } else {
        lemma_orderly_prefix(s, events);
        let rest = events.drop_last();
        let last = events.len() - 1;
        law_counts_balance(risk, start, rest);
        let before = after_events(s, rest);
        let after = after_events(s, events);
        assert(events[last] == events.last());
        match events.last() {
            Event::Requested { req, .. } => {
                if admits(before, events.last()) {
                    if before.active.contains_key(req.id) {
                        law_in_flight_since_admission(s, rest, req.id);
                        let i = choose|i: int| #[trigger] in_flight_since(s, rest, req.id, i);
                        assert(rest[i] == events[i]);
                        assert(requested_id(events[i]) == requested_id(events[last]));
                    }
                    assert(after.active.dom() =~= before.active.dom().insert(req.id));
                    assert(after.order_count == next_u64(before.order_count));
                }
            },
            Event::Settled { req, .. } => {
                assert(settled_id(events[last]) is Some);
                assert(before.active.contains_key(req.id));
                assert(after.active.dom() =~= before.active.dom().remove(req.id));
                assert(after.active.len() == before.active.len() - 1);
            },
            _ => {},
        }
    }
}

/// Once every admitted order has been settled, nothing is in flight, and each
/// admission is counted as one fill or one rejection.
pub proof fn law_settled_engine_is_idle(risk: RiskState, start: u64, events: Seq<Event>)
    requires
        orderly(fresh_engine(risk, start), events),
        admissions(fresh_engine(risk, start), events) <= u64::MAX,
        forall|i: int|
            0 <= i < events.len() && admits(
                after_events(fresh_engine(risk, start), events.take(i)),
                #[trigger] events[i],
            ) ==> exists|j: int|
                i < j < events.len() && settled_id(#[trigger] events[j]) == requested_id(events[i]),
    ensures
        ({
            let t = after_events(fresh_engine(risk, start), events);
            &&& t.active.len() == 0
            &&& t.order_count == t.fill_count + t.reject_count
        }),
{
    let s = fresh_engine(risk, start);
    let t = after_events(s, events);
    law_counts_balance(risk, start, events);
    assert(s.active.is_empty());
    assert forall|id: u64| !t.active.contains_key(id) by {
        if t.active.contains_key(id) {
            law_in_flight_since_admission(s, events, id);
            let i = choose|i: int| #[trigger] in_flight_since(s, events, id, i);
            assert(admits(after_events(s, events.take(i)), events[i]));
            let j = choose|j: int|
                i < j < events.len() && settled_id(#[trigger] events[j]) == requested_id(events[i]);
            assert(settled_id(events[j]) == Some(id));
        }
    }
    assert(t.active.dom() =~= Set::empty());
}

} // verus!
