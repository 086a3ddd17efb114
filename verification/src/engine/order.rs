use vstd::prelude::*;

use super::clock::{new_v4_id, now_millis};
use super::linked_hashmap::HasId;

verus! {

pub type Price = u32;

pub type OrderId = u64;

pub type Quantity = u64;

pub type Timestamp = i64;

#[derive(Clone, Copy, PartialEq, Eq, Debug, Structural)]
pub enum Side {
    Ask,
    Bid,
}

#[derive(Clone, Copy, PartialEq, Eq, Debug, Structural)]
pub enum Mode {
    Limit,
    Market,
}

/// A resting or incoming limit order. `executed` counts the quantity already
/// filled; identifiers are the 128-bit values of version-4 UUIDs.
#[derive(Clone, PartialEq, Eq, Debug, Structural)]
pub struct Order {
    pub id: u128,
    pub owner: u128,
    pub quantity: Quantity,
    pub price: Price,
    pub executed: Quantity,
    pub timestamp: Timestamp,
    pub side: Side,
    pub mode: Mode,
}

/// Quantity still to fill.
pub open spec fn pending(o: Order) -> int {
    o.quantity - o.executed
}

/// Whether nothing is left to fill.
pub open spec fn complete(o: Order) -> bool {
    o.quantity <= o.executed
}

/// `o` after filling `q` of it: the fill is capped at what is pending.
pub open spec fn filled(o: Order, q: Quantity) -> Order {
    Order {
        executed: if pending(o) <= q {
            o.quantity
        } else {
            (o.executed + q) as u64
        },
        ..o
    }
}

impl Order {
    /// A fresh, unfilled order with a new random identifier, stamped with
    /// the current time.
    pub fn new(owner: u128, quantity: Quantity, price: Price, side: Side, mode: Mode) -> (o: Self)
        ensures
            o.owner == owner,
            o.quantity == quantity,
            o.price == price,
            o.side == side,
            o.mode == mode,
            o.executed == 0,
            (o.id >> 76u128) & 0xfu128 == 4,
            (o.id >> 62u128) & 0x3u128 == 2,
    {
        Order {
            owner,
            price,
            quantity,
            side,
            mode,
            executed: 0,
            id: new_v4_id(),
            timestamp: now_millis(),
        }
    }

    pub fn is_complete(&self) -> (b: bool)
        ensures
            b == complete(*self),
    {
        self.quantity <= self.executed
    }

    pub fn get_pending(&self) -> (q: Quantity)
        requires
            self.executed <= self.quantity,
        ensures
            q == pending(*self),
    {
        self.quantity - self.executed
    }

    /// Fills up to `quantity` of the order and returns the part of
    /// `quantity` that exceeded what was pending.
    pub fn execute(&mut self, quantity: Quantity) -> (remainder: Quantity)
        requires
            old(self).executed <= old(self).quantity,
        ensures
            *final(self) == filled(*old(self), quantity),
            remainder == if pending(*old(self)) < quantity {
                quantity - pending(*old(self))
            } else {
                0
            },
    {
        let pending: Quantity = self.get_pending();
        if pending < quantity {
            self.executed = self.quantity;
            quantity - pending
        } else if pending == quantity {
            self.executed = self.quantity;
            0
        } else {
            self.executed = self.executed + quantity;
            0
        }
    }
}

impl HasId for Order {
    open spec fn key(&self) -> u128 {
        self.id
    }

    fn id(&self) -> (id: u128) {
        self.id
    }
}

} // verus!
