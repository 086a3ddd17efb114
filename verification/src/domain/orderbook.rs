use std::collections::{BTreeMap, VecDeque};
use vstd::prelude::*;

use super::order::Order;
use crate::shared::types::{Price, Side};

verus! {

broadcast use {vstd::std_specs::btree::group_btree_axioms, vstd::laws_cmp::group_laws_cmp};

/// Whether a float bit pattern is a NaN.
pub open spec fn is_nan_bits(bits: u64) -> bool {
    bits & 0x7ff0_0000_0000_0000u64 == 0x7ff0_0000_0000_0000u64 && bits & 0x000f_ffff_ffff_ffffu64
        != 0
}

/// The key under which a price level is filed. Keys follow the total order
/// of prices in which every NaN is one value above all others and the two
/// zeros are one value: +0 and -0 share a key, all NaNs share the greatest
/// key, and otherwise a greater price has a greater key.
pub open spec fn price_key(bits: u64) -> u64 {
    if is_nan_bits(bits) {
        0xffff_ffff_ffff_ffffu64
    } else if bits == 0x8000_0000_0000_0000u64 {
        0x8000_0000_0000_0000u64
    } else if bits & 0x8000_0000_0000_0000u64 == 0 {
        bits | 0x8000_0000_0000_0000u64
    } else {
        !bits
    }
}

/// Computes `price_key`.
pub fn level_key(bits: Price) -> (k: u64)
    ensures
        k == price_key(bits),
{
    if bits & 0x7ff0_0000_0000_0000u64 == 0x7ff0_0000_0000_0000u64 && bits
        & 0x000f_ffff_ffff_ffffu64 != 0 {
        0xffff_ffff_ffff_ffffu64
    } else if bits == 0x8000_0000_0000_0000u64 {
        0x8000_0000_0000_0000u64
    } else if bits & 0x8000_0000_0000_0000u64 == 0 {
        bits | 0x8000_0000_0000_0000u64
    } else {
        !bits
    }
}

/// The levels of one side, key to orders oldest first.
pub open spec fn side_levels(m: BTreeMap<u64, VecDeque<Order>>) -> Map<u64, Seq<Order>> {
    m@.map_values(|q: VecDeque<Order>| q@)
}

/// `levels` with `o` appended to the level filed under `key`.
pub open spec fn append_level(levels: Map<u64, Seq<Order>>, key: u64, o: Order) -> Map<
    u64,
    Seq<Order>,
> {
    let l = if levels.contains_key(key) {
        levels[key]
    } else {
        Seq::empty()
    };
    levels.insert(key, l.push(o))
}

fn append_at(levels: &mut BTreeMap<u64, VecDeque<Order>>, key: u64, order: Order)
    ensures
        side_levels(*final(levels)) == append_level(side_levels(*old(levels)), key, order),
{
    let ghost before = side_levels(*levels);
    let mut level = match levels.remove(&key) {
        Some(l) => l,
        None => VecDeque::new(),
    };
    assert(level@ == (if before.contains_key(key) {
        before[key]
    } else {
        Seq::<Order>::empty()
    }));
    level.push_back(order);
    levels.insert(key, level);
    assert(side_levels(*levels) =~= append_level(before, key, order));
}

/// Resting orders by price level: bids and asks, each level first in,
/// first out.
pub struct OrderBook {
    pub bids: BTreeMap<u64, VecDeque<Order>>,
    pub asks: BTreeMap<u64, VecDeque<Order>>,
}

impl OrderBook {
    pub open spec fn bid_levels(&self) -> Map<u64, Seq<Order>> {
        side_levels(self.bids)
    }

    pub open spec fn ask_levels(&self) -> Map<u64, Seq<Order>> {
        side_levels(self.asks)
    }

    pub fn new() -> (b: Self)
        ensures
            b.bid_levels() == Map::<u64, Seq<Order>>::empty(),
            b.ask_levels() == Map::<u64, Seq<Order>>::empty(),
    {
        let b = OrderBook { bids: BTreeMap::new(), asks: BTreeMap::new() };
        assert(b.bid_levels() =~= Map::<u64, Seq<Order>>::empty());
        assert(b.ask_levels() =~= Map::<u64, Seq<Order>>::empty());
        b
    }

    /// Appends the order to the level of its price on its side.
    pub fn add_order(&mut self, order: Order)
        ensures
            order.side == Side::Buy ==> final(self).bid_levels() == append_level(
                old(self).bid_levels(),
                price_key(order.price),
                order,
            ) && final(self).ask_levels() == old(self).ask_levels(),
            order.side == Side::Sell ==> final(self).ask_levels() == append_level(
                old(self).ask_levels(),
                price_key(order.price),
                order,
            ) && final(self).bid_levels() == old(self).bid_levels(),
    {
        let key = level_key(order.price);
        match order.side {
            Side::Buy => append_at(&mut self.bids, key, order),
            Side::Sell => append_at(&mut self.asks, key, order),
        }
    }
}

/// Two prices share a level exactly when they are equal as ordered floats:
/// both NaN, both zero (of either sign), or the same value.
pub proof fn law_same_level_iff_equal_price(a: u64, b: u64)
    ensures
        (price_key(a) == price_key(b)) == ((is_nan_bits(a) && is_nan_bits(b)) || (!is_nan_bits(a)
            && a == b) || ((a == 0 || a == 0x8000_0000_0000_0000u64) && (b == 0 || b
            == 0x8000_0000_0000_0000u64))),
{
    assert((price_key(a) == price_key(b)) == ((is_nan_bits(a) && is_nan_bits(b)) || (!is_nan_bits(
        a,
    ) && a == b) || ((a == 0 || a == 0x8000_0000_0000_0000u64) && (b == 0 || b
        == 0x8000_0000_0000_0000u64)))) by (bit_vector);
}

/// IEEE-754 "less than" on the bit patterns of two non-NaN floats: a
/// negative value is below a positive one, positive values order as their
/// bits, negative values in reverse, and the two zeros are equal.
pub open spec fn float_lt(a: u64, b: u64) -> bool {
    let sa = a & 0x8000_0000_0000_0000u64 != 0;
    let sb = b & 0x8000_0000_0000_0000u64 != 0;
    let both_zero = (a == 0 || a == 0x8000_0000_0000_0000u64) && (b == 0 || b
        == 0x8000_0000_0000_0000u64);
    &&& !both_zero
    &&& if sa && !sb {
        true
    } else if !sa && sb {
        false
    } else if !sa {
        a < b
    } else {
        a > b
    }
}

/// Level keys follow price order: a lower price files under a lower key,
/// and every NaN files above every number.
pub proof fn law_level_keys_follow_price_order(a: u64, b: u64)
    ensures
        !is_nan_bits(a) && !is_nan_bits(b) && float_lt(a, b) ==> price_key(a) < price_key(b),
        !is_nan_bits(a) && is_nan_bits(b) ==> price_key(a) < price_key(b),
{
    assert(!is_nan_bits(a) && !is_nan_bits(b) && float_lt(a, b) ==> price_key(a) < price_key(b))
        by (bit_vector);
    assert(!is_nan_bits(a) && is_nan_bits(b) ==> price_key(a) < price_key(b)) by (bit_vector);
}

} // verus!
