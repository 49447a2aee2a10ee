//! The engine's two tables: orders in flight and positions on the exchange.
//!
//! Both are concurrent maps of the `dashmap` crate. The engine reaches them
//! through `&mut`, so that nothing else changes a table while a contract speaks
//! of what it holds.
use crate::order::{Order, OrderView, RealPosition, RealPositionView};
use dashmap::DashMap;
use vstd::prelude::*;

verus! {

/// `dashmap::DashMap`, a map that threads can share.
#[verifier::external_type_specification]
#[verifier::external_body]
#[verifier::reject_recursive_types(K)]
#[verifier::reject_recursive_types(V)]
#[verifier::reject_recursive_types(S)]
pub struct ExDashMap<K, V, S>(DashMap<K, V, S>);

/// The orders that a table holds, by id.
pub uninterp spec fn orders_in(table: DashMap<u64, Order>) -> Map<u64, OrderView>;

/// The positions that a table holds, by order id.
pub uninterp spec fn positions_in(table: DashMap<u64, RealPosition>) -> Map<u64, RealPositionView>;

/// `DashMap::with_capacity`: an empty table of orders.
#[verifier::external_body]
pub(crate) fn new_orders(capacity: usize) -> (r: DashMap<u64, Order>)
    requires
        capacity <= 1024,
    ensures
        orders_in(r).is_empty(),
{
    DashMap::with_capacity(capacity)
}

/// `DashMap::insert`: the order stands under its id, whatever stood there before.
#[verifier::external_body]
pub(crate) fn insert_order(table: &mut DashMap<u64, Order>, id: u64, order: Order)
    ensures
        orders_in(*final(table)) == orders_in(*old(table)).insert(id, order@),
{
    let _ = table.insert(id, order);
}

/// `DashMap::remove`: takes the order out and returns it, if there is one.
#[verifier::external_body]
pub(crate) fn remove_order(table: &mut DashMap<u64, Order>, id: u64) -> (r: Option<(u64, Order)>)
    ensures
        orders_in(*final(table)) == orders_in(*old(table)).remove(id),
        match r {
            Some((key, order)) => key == id && orders_in(*old(table)).contains_key(id) && order@
                == orders_in(*old(table))[id],
            None => !orders_in(*old(table)).contains_key(id),
        },
{
    table.remove(&id)
}

/// `DashMap::iter`: each key once, in no particular order.
#[verifier::external_body]
pub(crate) fn order_ids(table: &DashMap<u64, Order>) -> (r: Vec<u64>)
    ensures
        r@.no_duplicates(),
        r@.to_set() == orders_in(*table).dom(),
{
    table.iter().map(|entry| *entry.key()).collect()
}

/// `DashMap::len`: the number of entries.
#[verifier::external_body]
pub(crate) fn order_table_len(table: &DashMap<u64, Order>) -> (r: usize)
    ensures
        r == orders_in(*table).len(),
{
    table.len()
}

/// `DashMap::with_capacity`: an empty table of positions.
#[verifier::external_body]
pub(crate) fn new_positions(capacity: usize) -> (r: DashMap<u64, RealPosition>)
    requires
        capacity <= 1024,
    ensures
        positions_in(r).is_empty(),
{
    DashMap::with_capacity(capacity)
}

/// `DashMap::insert`: the position stands under its id, whatever stood there
/// before.
#[verifier::external_body]
pub(crate) fn insert_position(
    table: &mut DashMap<u64, RealPosition>,
    id: u64,
    position: RealPosition,
)
    ensures
        positions_in(*final(table)) == positions_in(*old(table)).insert(id, position@),
{
    let _ = table.insert(id, position);
}

/// `DashMap::remove`: takes the position out and returns it, if there is one.
#[verifier::external_body]
pub(crate) fn remove_position(table: &mut DashMap<u64, RealPosition>, id: u64) -> (r: Option<
    (u64, RealPosition),
>)
    ensures
        positions_in(*final(table)) == positions_in(*old(table)).remove(id),
        match r {
            Some((key, position)) => key == id && positions_in(*old(table)).contains_key(id)
                && position@ == positions_in(*old(table))[id],
            None => !positions_in(*old(table)).contains_key(id),
        },
{
    table.remove(&id)
}

/// `DashMap::iter`: each key once with a copy of its position, in no particular
/// order.
#[verifier::external_body]
pub(crate) fn position_entries(table: &DashMap<u64, RealPosition>) -> (r: Vec<(u64, RealPosition)>)
    ensures
        r@.map_values(|e: (u64, RealPosition)| e.0).no_duplicates(),
        r@.map_values(|e: (u64, RealPosition)| e.0).to_set() == positions_in(*table).dom(),
        forall|i: int|
            0 <= i < r@.len() ==> (#[trigger] r@[i]).1@ == positions_in(*table)[r@[i].0],
{
    table.iter().map(|entry| (*entry.key(), entry.value().clone())).collect()
}

/// `DashMap::is_empty`: whether there is no entry.
#[verifier::external_body]
pub(crate) fn no_positions(table: &DashMap<u64, RealPosition>) -> (r: bool)
    ensures
        r == positions_in(*table).is_empty(),
{
    table.is_empty()
}

/// `DashMap::clear`: no entry is left.
#[verifier::external_body]
pub(crate) fn clear_positions(table: &mut DashMap<u64, RealPosition>)
    ensures
        positions_in(*final(table)).is_empty(),
{
    table.clear()
}

} // verus!
