use vstd::prelude::*;

verus! {

pub type CommandId = String;

pub type CommandSeq = u64;

pub type EventSeq = u64;

pub type Timestamp = u64;

pub type TradeSeq = u64;

pub type TradeId = String;

pub type OrderId = String;

/// A price, held as the IEEE-754 bit pattern of its 64-bit float value.
pub type Price = u64;

/// A quantity, held as the IEEE-754 bit pattern of its 64-bit float value.
pub type Quantity = u64;

pub type UserId = String;

pub type Symbol = String;

#[derive(Debug, Clone, Copy, PartialEq, Eq, Structural)]
pub enum Side {
    Buy,
    Sell,
}

#[derive(Debug, Clone, Copy, PartialEq, Eq, Structural)]
pub enum Type {
    Limit,
    Market,
}

#[derive(Debug, Clone, Copy, PartialEq, Eq, Structural)]
pub enum TimeInForce {
    GTC,
    IOC,
    FOK,
}

} // verus!
