use sikapa_execution::binary64::Binary64;
use sikapa_execution::order::{Order, OrderRequest, OrderStatus, Side};
use sikapa_execution::trade_ring::{TradeRing, RING_CAPACITY};

fn num(x: f64) -> Binary64 {
    Binary64::from_bits(x.to_bits())
}

fn order(id: u64) -> Order {
    let mut counter = id;
    let req = OrderRequest::new(&mut counter, "ETH", Side::Sell, num(1.0), num(2.0), 0);
    Order::opened(&req, num(1.0), num(2.5), 77)
}

fn ids(orders: &Vec<Order>) -> Vec<u64> {
    orders.iter().map(|o| o.id).collect()
}

#[test]
fn opened_order_fields() {
    let o = order(9);
    assert_eq!(o.id, 9);
    assert_eq!(o.symbol, *b"ETH\0\0\0\0\0");
    assert_eq!(o.side, Side::Sell);
    assert_eq!(o.quantity, num(1.0));
    assert_eq!(o.price, num(2.0));
    assert_eq!(o.status, OrderStatus::Open);
    assert_eq!(o.filled_qty, num(1.0));
    assert_eq!(o.filled_price, num(2.5));
    assert_eq!(o.created_ns, 77);
    assert_eq!(o.latency_ns, 0);
    assert_eq!(o.pnl, num(0.0));
    assert_eq!(o.exit_price, num(0.0));
    assert_eq!(o.exit_reason, "");
}

#[test]
fn newest_come_first() {
    let mut ring = TradeRing::new();
    assert_eq!(ring.len(), 0);
    assert!(ring.recent(5).is_empty());
    for id in 1..=4 {
        ring.push(order(id));
    }
    assert_eq!(ids(&ring.recent(2)), vec![4, 3]);
    assert_eq!(ids(&ring.recent(10)), vec![4, 3, 2, 1]);
    assert_eq!(ids(&ring.recent(10)), vec![4, 3, 2, 1]);
    assert!(ring.recent(0).is_empty());
}

#[test]
fn full_ring_drops_the_oldest() {
    let mut ring = TradeRing::new();
    for id in 0..(RING_CAPACITY as u64 + 3) {
        ring.push(order(id));
    }
    assert_eq!(ring.len(), 500);
    let all = ids(&ring.recent(usize::MAX));
    assert_eq!(all.len(), 500);
    assert_eq!(all[0], 502);
    assert_eq!(all[499], 3);
}

#[test]
fn clear_forgets_everything() {
    let mut ring = TradeRing::new();
    ring.push(order(1));
    ring.clear();
    assert_eq!(ring.len(), 0);
}

#[test]
fn exit_is_recorded_on_the_newest_entry() {
    let mut ring = TradeRing::new();
    ring.push(order(7));
    ring.push(order(8));
    ring.push(order(7));
    ring.push(order(9));
    ring.update_exit(7, num(3.5), "TP", num(1.25));
    let all = ring.recent(4);
    assert_eq!(ids(&all), vec![9, 7, 8, 7]);
    assert_eq!(all[1].exit_price, num(3.5));
    assert_eq!(all[1].exit_reason, "TP");
    assert_eq!(all[1].pnl, num(1.25));
    assert_eq!(all[1].status, OrderStatus::Filled);
    assert_eq!(all[1].filled_price, num(2.5));
    assert_eq!(all[3].exit_reason, "");
    assert_eq!(all[3].status, OrderStatus::Open);
    assert_eq!(all[0].status, OrderStatus::Open);
}

#[test]
fn exit_of_an_unknown_order_changes_nothing() {
    let mut ring = TradeRing::new();
    ring.push(order(1));
    ring.update_exit(2, num(3.5), "SL", num(1.0));
    assert_eq!(ring.recent(1)[0].status, OrderStatus::Open);
    assert_eq!(ring.len(), 1);
}
