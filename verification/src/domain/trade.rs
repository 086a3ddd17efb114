use vstd::prelude::*;

use crate::shared::types::{OrderId, Price, Quantity, Symbol, Timestamp, TradeId};

verus! {

/// A trade between a resting (maker) and an incoming (taker) order; `price`
/// and `quantity` are float bit patterns.
#[derive(Debug, Clone)]
pub struct Trade {
    pub trade_id: TradeId,
    pub symbol: Symbol,
    pub price: Price,
    pub quantity: Quantity,
    pub maker_order_id: OrderId,
    pub taker_order_id: OrderId,
    pub timestamp: Timestamp,
}

} // verus!
