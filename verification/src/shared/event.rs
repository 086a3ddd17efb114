use vstd::prelude::*;

use super::types::{
    CommandSeq, EventSeq, OrderId, Price, Quantity, Symbol, Timestamp, TradeId, TradeSeq, UserId,
};

verus! {

/// An event with its place in the event stream, the command it came from
/// and the time it was emitted (milliseconds since the Unix epoch).
#[derive(Debug, Clone)]
pub struct EventEnvelope {
    pub event_seq: EventSeq,
    pub command_seq: CommandSeq,
    pub timestamp: Timestamp,
    pub event: Event,
}

#[derive(Debug, Clone)]
pub enum Event {
    OrderAccepted(OrderAccepted),
    OrderRejected(OrderRejected),
    OrderCancelled(OrderCancelled),
    OrderCancelRejected(OrderCancelRejected),
    TradeExecuted(TradeExecuted),
    OrderPartiallyFilled(OrderPartiallyFilled),
    OrderFilled(OrderFilled),
    OrderExpired(OrderExpired),
}

#[derive(Debug, Clone)]
pub struct OrderAccepted {
    pub order_id: OrderId,
    pub user_id: UserId,
    pub symbol: Symbol,
}

#[derive(Debug, Clone)]
pub struct OrderRejected {
    pub order_id: OrderId,
    pub reason: String,
}

#[derive(Debug, Clone)]
pub struct OrderCancelled {
    pub order_id: OrderId,
    pub user_id: UserId,
    pub symbol: Symbol,
}

#[derive(Debug, Clone)]
pub struct OrderCancelRejected {
    pub order_id: OrderId,
    pub reason: String,
}

/// A trade; `price` and `quantity` are float bit patterns.
#[derive(Debug, Clone)]
pub struct TradeExecuted {
    pub trade_seq: TradeSeq,
    pub trade_id: TradeId,
    pub symbol: Symbol,
    pub price: Price,
    pub quantity: Quantity,
    pub maker_order_id: OrderId,
    pub taker_order_id: OrderId,
    pub timestamp: Timestamp,
}

/// A partial fill; quantities are float bit patterns.
#[derive(Debug, Clone)]
pub struct OrderPartiallyFilled {
    pub order_id: OrderId,
    pub filled_quantity: Quantity,
    pub remaining_quantity: Quantity,
}

#[derive(Debug, Clone)]
pub struct OrderFilled {
    pub order_id: OrderId,
}

#[derive(Debug, Clone)]
pub struct OrderExpired {
    pub order_id: OrderId,
}

} // verus!
