use vstd::prelude::*;

use crate::shared::types::{OrderId, Price, Quantity, Side, Symbol, TimeInForce, Timestamp, Type, UserId};

verus! {

/// An order as the book holds it; `price`, `quantity` and `remaining` are
/// float bit patterns.
#[derive(Debug, Clone)]
pub struct Order {
    pub order_id: OrderId,
    pub user_id: UserId,
    pub symbol: Symbol,
    pub side: Side,
    pub order_type: Type,
    pub price: Price,
    pub quantity: Quantity,
    pub remaining: Quantity,
    pub timestamp: Timestamp,
    pub time_in_force: TimeInForce,
}

} // verus!
