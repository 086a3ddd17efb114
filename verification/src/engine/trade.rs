use vstd::prelude::*;

use super::clock::{new_v4_id, now_millis};
use super::order::{Price, Quantity};

verus! {

/// An execution between two orders, with its own random identifier and the
/// time it was recorded.
pub struct Trade {
    pub id: u128,
    pub ask_id: u128,
    pub bid_id: u128,
    pub amount: Quantity,
    pub price: Price,
    pub timestamp: i64,
}

impl Trade {
    pub fn new(ask_id: u128, bid_id: u128, amount: Quantity, price: Price) -> (t: Trade)
        ensures
            t.ask_id == ask_id,
            t.bid_id == bid_id,
            t.amount == amount,
            t.price == price,
            (t.id >> 76u128) & 0xfu128 == 4,
            (t.id >> 62u128) & 0x3u128 == 2,
    {
        Trade { id: new_v4_id(), ask_id, bid_id, amount, price, timestamp: now_millis() }
    }
}

} // verus!
