//! The log of recent trades: a ring that keeps the newest orders.
use crate::binary64::Binary64;
use crate::order::{Order, OrderStatus, OrderView};
use std::collections::VecDeque;
use vstd::prelude::*;

verus! {

/// How many orders the ring keeps.
pub const RING_CAPACITY: usize = 500;

/// `log` with `order` pushed: the oldest entry makes room once the ring is full.
pub open spec fn ring_push(log: Seq<OrderView>, order: OrderView) -> Seq<OrderView> {
    if log.len() >= RING_CAPACITY {
        log.skip(1).push(order)
    } else {
        log.push(order)
    }
}

/// An empty ring after the pushes of `orders`, in that order.
pub open spec fn after_pushes(orders: Seq<OrderView>) -> Seq<OrderView>
    decreases orders.len(),
{
    if orders.len() == 0 {
        Seq::empty()
    } else {
        ring_push(after_pushes(orders.drop_last()), orders.last())
    }
}

/// The newest `n` entries, newest first; all of them where there are fewer.
pub open spec fn newest_first(log: Seq<OrderView>, n: nat) -> Seq<OrderView> {
    Seq::new(
        if n < log.len() {
            n
        } else {
            log.len()
        },
        |i: int| log[log.len() - 1 - i],
    )
}

/// Index of the newest entry with the given id.
pub open spec fn newest_with_id(log: Seq<OrderView>, id: u64) -> Option<int>
    decreases log.len(),
{
    if log.len() == 0 {
        None
    } else if log.last().id == id {
        Some(log.len() - 1)
    } else {
        newest_with_id(log.drop_last(), id)
    }
}

/// `order` once its position has been closed.
pub open spec fn exited(
    order: OrderView,
    exit_price: Binary64,
    exit_reason: Seq<char>,
    pnl: Binary64,
) -> OrderView {
    OrderView { exit_price, exit_reason, pnl, status: OrderStatus::Filled, ..order }
}

/// `log` once the newest entry with id `id` has been closed.
pub open spec fn log_exit(
    log: Seq<OrderView>,
    id: u64,
    exit_price: Binary64,
    exit_reason: Seq<char>,
    pnl: Binary64,
) -> Seq<OrderView> {
    match newest_with_id(log, id) {
        Some(i) => log.update(i, exited(log[i], exit_price, exit_reason, pnl)),
        None => log,
    }
}

/// The newest orders, oldest first, at most `RING_CAPACITY` of them.
pub struct TradeRing {
    inner: VecDeque<Order>,
}

impl View for TradeRing {
    type V = Seq<OrderView>;

    closed spec fn view(&self) -> Seq<OrderView> {
        self.inner@.map_values(|o: Order| o@)
    }
}

impl TradeRing {
    /// The ring never holds more than its capacity.
    pub open spec fn wf(&self) -> bool {
        self@.len() <= RING_CAPACITY
    }

    pub fn new() -> (r: TradeRing)
        ensures
            r.wf(),
            r@ == Seq::<OrderView>::empty(),
    {
        let r: TradeRing = TradeRing { inner: VecDeque::with_capacity(RING_CAPACITY) };
        assert(r@ =~= Seq::<OrderView>::empty());
        r
    }

    pub fn len(&self) -> (r: usize)
        ensures
            r == self@.len(),
    {
        self.inner.len()
    }

    /// Appends an order; a full ring loses its oldest one.
    pub fn push(&mut self, order: Order)
        requires
            old(self).wf(),
        ensures
            final(self).wf(),
            final(self)@ == ring_push(old(self)@, order@),
    {
        if self.inner.len() >= RING_CAPACITY {
            let _ = self.inner.pop_front();
        }
        self.inner.push_back(order);
        assert(self@ =~= ring_push(old(self)@, order@));
    }

    /// The newest `n` orders, newest first. The ring stays as it is.
    pub fn recent(&self, n: usize) -> (r: Vec<Order>)
        ensures
            r@.map_values(|o: Order| o@) == newest_first(self@, n as nat),
    {
        let mut out: Vec<Order> = Vec::new();
        let total: usize = self.inner.len();
        let count: usize = if n < total {
            n
        } else {
            total
        };
        let mut i: usize = 0;
        while i < count
            invariant
                i <= count <= total,
                total == self.inner@.len(),
                out@.len() == i,
                forall|j: int| 0 <= j < i ==> out@[j]@ == self@[total - 1 - j],
            decreases count - i,
        {
            out.push(self.inner[total - 1 - i].clone());
            i += 1;
        }
        assert(out@.map_values(|o: Order| o@) =~= newest_first(self@, n as nat));
        out
    }

    /// Forgets every order.
    pub fn clear(&mut self)
        ensures
            final(self).wf(),
            final(self)@ == Seq::<OrderView>::empty(),
    {
        self.inner.clear();
        assert(self@ =~= Seq::<OrderView>::empty());
    }

    /// Records how the newest order with the given id was closed. Without such
    /// an order the ring stays as it is.
    pub fn update_exit(
        &mut self,
        order_id: u64,
        exit_price: Binary64,
        exit_reason: &str,
        pnl: Binary64,
    )
        requires
            old(self).wf(),
        ensures
            final(self).wf(),
            final(self)@ == log_exit(old(self)@, order_id, exit_price, exit_reason@, pnl),
    {
        let mut i: usize = self.inner.len();
        assert(self@.take(i as int) =~= self@);
        while i > 0
            invariant
                i <= self.inner@.len(),
                self.wf(),
                self@ == old(self)@,
                newest_with_id(self@, order_id) == newest_with_id(self@.take(i as int), order_id),
            decreases i,
        {
            i -= 1;
            assert(self@.take(i + 1).last() == self.inner@[i as int]@);
            assert(self@.take(i + 1).drop_last() =~= self@.take(i as int));
            if self.inner[i].id == order_id {
                let ghost log = self@;
                match self.inner.remove(i) {
                    Some(found) => {
                        let mut order: Order = found;
                        order.exit_price = exit_price;
                        order.exit_reason = exit_reason.to_owned();
                        order.pnl = pnl;
                        order.status = OrderStatus::Filled;
                        self.inner.insert(i, order);
                        assert(self@ =~= log.update(
                            i as int,
                            exited(log[i as int], exit_price, exit_reason@, pnl),
                        ));
                    },
                    None => {},
                }
                return ;
            }
        }
    }
}

/// Whatever has been pushed, the ring holds exactly the newest entries, up to
/// its capacity, in the order of the pushes.
pub proof fn law_ring_keeps_newest(orders: Seq<OrderView>)
    ensures
        after_pushes(orders) == (if orders.len() <= RING_CAPACITY {
            orders
        } else {
            orders.skip(orders.len() - RING_CAPACITY)
        }),
    decreases orders.len(),
{
    if orders.len() > 0 {
        law_ring_keeps_newest(orders.drop_last());
        if orders.len() <= RING_CAPACITY {
            assert(orders.drop_last().push(orders.last()) =~= orders);
        } else if orders.len() == RING_CAPACITY + 1 {
            assert(orders.drop_last().skip(1).push(orders.last()) =~= orders.skip(1));
        } else {
            let n = orders.len() - RING_CAPACITY;
            assert(orders.drop_last().skip(n - 1).skip(1).push(orders.last()) =~= orders.skip(n));
        }
    } else {
        assert(after_pushes(orders) =~= orders);
    }
}

/// Reading the newest `n` entries gives back the last pushes, newest first.
pub proof fn law_recent_reads_pushes(orders: Seq<OrderView>, n: nat, i: int)
    requires
        0 <= i < n,
        i < orders.len(),
        i < RING_CAPACITY,
    ensures
        newest_first(after_pushes(orders), n).len() > i,
        newest_first(after_pushes(orders), n)[i] == orders[orders.len() - 1 - i],
{
    law_ring_keeps_newest(orders);
}

/// Closing an order touches no other entry, and the entry touched is the newest
/// one with that id.
pub proof fn law_exit_touches_one(
    log: Seq<OrderView>,
    id: u64,
    exit_price: Binary64,
    exit_reason: Seq<char>,
    pnl: Binary64,
)
    ensures
        log_exit(log, id, exit_price, exit_reason, pnl).len() == log.len(),
        match newest_with_id(log, id) {
            Some(k) => {
                &&& 0 <= k < log.len()
                &&& log[k].id == id
                &&& forall|j: int| k < j < log.len() ==> log[j].id != id
                &&& forall|j: int|
                    0 <= j < log.len() && j != k ==> log_exit(
                        log,
                        id,
                        exit_price,
                        exit_reason,
                        pnl,
                    )[j] == log[j]
            },
            None => forall|j: int| 0 <= j < log.len() ==> log[j].id != id,
        },
    decreases log.len(),
{
    if log.len() > 0 && log.last().id != id {
        law_exit_touches_one(log.drop_last(), id, exit_price, exit_reason, pnl);
        let rest = log.drop_last();
        match newest_with_id(log, id) {
            Some(k) => {
                assert(log[k] == rest[k]);
                assert forall|j: int| k < j < log.len() implies log[j].id != id by {
                    if j < rest.len() {
                        assert(rest[j] == log[j]);
                    }
                }
            },
            None => {
                assert forall|j: int| 0 <= j < log.len() implies log[j].id != id by {
                    if j < rest.len() {
                        assert(rest[j] == log[j]);
                    }
                }
            },
        }
    }
}

} // verus!
