use std::collections::{BTreeSet, HashMap};
use vstd::prelude::*;

use super::linked_hashmap::{keys_of, LinkedHashmap};
use super::order::{complete, filled, pending, Order, Price, Quantity, Side};
use super::price_set::{add_price, drop_price, highest, lowest};
use super::trade::Trade;

verus! {

broadcast use vstd::std_specs::hash::group_hash_axioms;

/// Orders resting at one price, oldest first.
pub type OrderQueue = LinkedHashmap<Order>;

/// Price levels of one side of the book.
pub type OrderMap = HashMap<Price, OrderQueue>;

/// Prices at which bids rest; the best bid is the greatest.
pub type BidQueue = BTreeSet<Price>;

/// Prices at which asks rest; the best ask is the least.
pub type AskQueue = BTreeSet<Price>;

/// One execution as the contracts see it: who took liquidity, whose resting
/// order was hit, how much and at which price.
pub struct Fill {
    pub taker: u128,
    pub maker: u128,
    pub quantity: Quantity,
    pub price: Price,
}

pub open spec fn opposite(side: Side) -> Side {
    match side {
        Side::Ask => Side::Bid,
        Side::Bid => Side::Ask,
    }
}

/// The levels of one side: price to the orders resting there, oldest first.
pub open spec fn levels(m: OrderMap) -> Map<Price, Seq<Order>> {
    m@.map_values(|q: OrderQueue| q@)
}

/// Every order of a level rests at its price, on its side, unfilled.
pub open spec fn level_ok(l: Seq<Order>, p: Price, side: Side) -> bool {
    forall|i: int|
        #![trigger l[i]]
        0 <= i < l.len() ==> l[i].price == p && l[i].side == side && l[i].executed < l[i].quantity
}

/// One side of the book is consistent: its price set lists exactly the
/// prices that hold a level, and every level is a non-empty well-formed
/// queue of unfilled orders of that side at that price.
pub open spec fn side_wf(m: OrderMap, prices: Set<Price>, side: Side) -> bool {
    &&& prices == m@.dom()
    &&& forall|p: Price|
        #[trigger] m@.contains_key(p) ==> {
            &&& m@[p].wf()
            &&& m@[p]@.len() > 0
            &&& level_ok(m@[p]@, p, side)
        }
}

/// Matches `taker` against the orders of one level, oldest first, until the
/// taker is filled or the level is exhausted. Each step fills the smaller of
/// the two pending quantities; a maker left partly filled keeps its place at
/// the front. Returns the taker, the level and the fills, in order.
pub open spec fn fill_level(taker: Order, level: Seq<Order>, price: Price) -> (
    Order,
    Seq<Order>,
    Seq<Fill>,
)
    decreases level.len(),
{
    if complete(taker) || level.len() == 0 {
        (taker, level, Seq::empty())
    } else {
        let maker = level[0];
        let q = (if pending(taker) <= pending(maker) {
            pending(taker)
        } else {
            pending(maker)
        }) as u64;
        let maker2 = filled(maker, q);
        let taker2 = filled(taker, q);
        let f = Fill { taker: taker.id, maker: maker.id, quantity: q, price };
        if !complete(maker2) {
            (taker2, seq![maker2] + level.drop_first(), seq![f])
        } else {
            let r = fill_level(taker2, level.drop_first(), price);
            (r.0, r.1, seq![f] + r.2)
        }
    }
}

/// The best opposite price for a taker of `side`: the least ask for a bid,
/// the greatest bid for an ask.
pub open spec fn best_price_of(side: Side, prices: Set<Price>) -> Price {
    if side == Side::Bid {
        choose|p: Price| prices.contains(p) && forall|q: Price| prices.contains(q) ==> p <= q
    } else {
        choose|p: Price| prices.contains(p) && forall|q: Price| prices.contains(q) ==> q <= p
    }
}

/// Whether a taker may trade at price `p`.
pub open spec fn crosses(taker: Order, p: Price) -> bool {
    if taker.side == Side::Bid {
        p <= taker.price
    } else {
        p >= taker.price
    }
}

/// A level with `o` appended, unless an order with its identifier is there.
pub open spec fn level_push(l: Seq<Order>, o: Order) -> Seq<Order> {
    if keys_of(l).contains(o.id) {
        l
    } else {
        l.push(o)
    }
}

/// `own` with `o` resting at the back of its price level.
pub open spec fn rest(own: Map<Price, Seq<Order>>, o: Order) -> Map<Price, Seq<Order>> {
    let l = if own.contains_key(o.price) {
        own[o.price]
    } else {
        Seq::empty()
    };
    own.insert(o.price, level_push(l, o))
}

/// Price-time priority matching of `taker` against the opposite side `opp`,
/// with `own` the taker's side: sweep the best opposite level while it
/// crosses the taker's limit, and rest whatever is left of the taker at its
/// price. Returns both sides and the fills, in execution order.
#[verifier::opaque]
pub open spec fn match_order(
    own: Map<Price, Seq<Order>>,
    opp: Map<Price, Seq<Order>>,
    taker: Order,
) -> (Map<Price, Seq<Order>>, Map<Price, Seq<Order>>, Seq<Fill>)
    decreases opp.dom().len(),
    when opp.dom().finite()
{
    if complete(taker) {
        (own, opp, Seq::empty())
    } else {
        let p = best_price_of(taker.side, opp.dom());
        if !opp.dom().contains(p) || !crosses(taker, p) {
            (rest(own, taker), opp, Seq::empty())
        } else {
            let r = fill_level(taker, opp[p], p);
            if r.1.len() == 0 {
                let m = match_order(own, opp.remove(p), r.0);
                (m.0, m.1, r.2 + m.2)
            } else {
                (own, opp.insert(p, r.1), r.2)
            }
        }
    }
}

/// `t` records the fill `f`.
pub open spec fn trade_is(t: Trade, f: Fill) -> bool {
    &&& t.ask_id == f.taker
    &&& t.bid_id == f.maker
    &&& t.amount == f.quantity
    &&& t.price == f.price
}

/// The trades record the fills, one for one and in order.
pub open spec fn trades_are(ts: Seq<Trade>, fs: Seq<Fill>) -> bool {
    &&& ts.len() == fs.len()
    &&& forall|i: int| 0 <= i < ts.len() ==> #[trigger] trade_is(ts[i], fs[i])
}

/// Fills `order` against `queue`, the level at `price`, appending one trade
/// per fill.
fn fill_from_level(
    queue: &mut OrderQueue,
    order: &mut Order,
    price: Price,
    trades: &mut Vec<Trade>,
)
    requires
        old(queue).wf(),
        level_ok(old(queue)@, price, opposite(old(order).side)),
        old(order).executed <= old(order).quantity,
    ensures
        ({
            let r = fill_level(*old(order), old(queue)@, price);
            &&& *final(order) == r.0
            &&& final(queue)@ == r.1
            &&& trades_are(final(trades)@.subrange(old(trades)@.len() as int, final(trades)@.len() as int), r.2)
            &&& final(trades)@.subrange(0, old(trades)@.len() as int) == old(trades)@
            &&& final(trades)@.len() == old(trades)@.len() + r.2.len()
        }),
        final(queue).wf(),
        level_ok(final(queue)@, price, opposite(old(order).side)),
        final(order).executed <= final(order).quantity,
        final(order).side == old(order).side,
        final(order).price == old(order).price,
        final(order).id == old(order).id,
        final(queue)@.len() > 0 ==> complete(*final(order)),
{
    let ghost order0 = *order;
    let ghost queue0 = queue@;
    let ghost trades0 = trades@;
    let ghost mut fills: Seq<Fill> = Seq::empty();
    while !order.is_complete() && !queue.is_empty()
        invariant
            queue.wf(),
            level_ok(queue@, price, opposite(order0.side)),
            order.executed <= order.quantity,
            order.side == order0.side,
            order.price == order0.price,
            order.id == order0.id,
            fill_level(order0, queue0, price) == ({
                let r = fill_level(*order, queue@, price);
                (r.0, r.1, fills + r.2)
            }),
            trades@.len() == trades0.len() + fills.len(),
            trades@.subrange(0, trades0.len() as int) == trades0,
            trades_are(trades@.subrange(trades0.len() as int, trades@.len() as int), fills),
        decreases queue@.len() + (if complete(*order) {
            0int
        } else {
            1int
        }),
    {
        let ghost q_before = queue@;
        let ghost o_before = *order;
        let ghost t_before = trades@;
        proof {
            queue.lemma_keys_unique();
        }
        match queue.pop() {
            Some(mut candidate) => {
                assert(q_before[0] == candidate);
                let candidate_id = candidate.id;
                let order_pending = order.get_pending();
                let candidate_pending = candidate.get_pending();
                let quantity = if order_pending <= candidate_pending {
                    order_pending
                } else {
                    candidate_pending
                };
                candidate.execute(quantity);
                order.execute(quantity);
                if !candidate.is_complete() {
                    assert(!keys_of(queue@).contains(candidate.id)) by {
                        if keys_of(queue@).contains(candidate.id) {
                            let j = choose|j: int| 0 <= j < queue@.len() && keys_of(queue@)[j] == candidate.id;
                            assert(keys_of(q_before)[j + 1] == keys_of(q_before)[0]);
                        }
                    }
                    queue.push_first(candidate);
                }
                let trade = Trade::new(order.id, candidate_id, quantity, price);
                trades.push(trade);
                proof {
                    let f = Fill { taker: o_before.id, maker: candidate_id, quantity, price };
                    let old_fills = fills;
                    fills = fills.push(f);
                    assert forall|i: int| 0 <= i < fills.len() implies #[trigger] trade_is(
                        trades@.subrange(trades0.len() as int, trades@.len() as int)[i],
                        fills[i],
                    ) by {
                        if i < old_fills.len() {
                            assert(trades@.subrange(trades0.len() as int, trades@.len() as int)[i]
                                == t_before.subrange(trades0.len() as int, t_before.len() as int)[i]);
                        } else {
                            assert(trades@.subrange(trades0.len() as int, trades@.len() as int)[i]
                                == trade);
                        }
                    }
                    assert(trades@.subrange(0, trades0.len() as int) =~= trades0);
                    let r_before = fill_level(o_before, q_before, price);
                    let r_after = fill_level(*order, queue@, price);
                    if !complete(candidate) {
                        assert(queue@ =~= seq![candidate] + q_before.drop_first());
                        assert(r_before == (*order, queue@, seq![f]));
                        assert(r_after == (*order, queue@, Seq::<Fill>::empty()));
                        assert(fills + r_after.2 =~= old_fills + r_before.2);
                    } else {
                        assert(queue@ =~= q_before.drop_first());
                        assert(r_before.2 =~= seq![f] + r_after.2);
                        assert(fills + r_after.2 =~= old_fills + r_before.2);
                    }
                }
            },
            None => {},
        }
    }
}

pub(crate) proof fn lemma_match_complete(own: Map<Price, Seq<Order>>, opp: Map<Price, Seq<Order>>, t: Order)
    requires
        complete(t),
        opp.dom().finite(),
    ensures
        match_order(own, opp, t) == (own, opp, Seq::<Fill>::empty()),
{
    reveal(match_order);
}

pub(crate) proof fn lemma_match_rests(own: Map<Price, Seq<Order>>, opp: Map<Price, Seq<Order>>, t: Order)
    requires
        !complete(t),
        opp.dom().finite(),
        !opp.dom().contains(best_price_of(t.side, opp.dom())) || !crosses(
            t,
            best_price_of(t.side, opp.dom()),
        ),
    ensures
        match_order(own, opp, t) == (rest(own, t), opp, Seq::<Fill>::empty()),
{
    reveal(match_order);
}

pub(crate) proof fn lemma_match_sweeps(own: Map<Price, Seq<Order>>, opp: Map<Price, Seq<Order>>, t: Order, p: Price)
    requires
        !complete(t),
        opp.dom().finite(),
        p == best_price_of(t.side, opp.dom()),
        opp.dom().contains(p),
        crosses(t, p),
    ensures
        ({
            let r = fill_level(t, opp[p], p);
            match_order(own, opp, t) == if r.1.len() == 0 {
                let m = match_order(own, opp.remove(p), r.0);
                (m.0, m.1, r.2 + m.2)
            } else {
                (own, opp.insert(p, r.1), r.2)
            }
        }),
{
    reveal(match_order);
}

proof fn lemma_best_price(side: Side, s: Set<Price>, p: Price)
    requires
        s.contains(p),
        side == Side::Bid ==> forall|q: Price| s.contains(q) ==> p <= q,
        side != Side::Bid ==> forall|q: Price| s.contains(q) ==> q <= p,
    ensures
        best_price_of(side, s) == p,
{
    let b = best_price_of(side, s);
    assert(s.contains(b));
}

proof fn lemma_trades_concat(ts1: Seq<Trade>, ts2: Seq<Trade>, f1: Seq<Fill>, f2: Seq<Fill>)
    requires
        trades_are(ts1, f1),
        trades_are(ts2, f2),
    ensures
        trades_are(ts1 + ts2, f1 + f2),
{
    assert forall|i: int| 0 <= i < ts1.len() + ts2.len() implies #[trigger] trade_is(
        (ts1 + ts2)[i],
        (f1 + f2)[i],
    ) by {
        if i < ts1.len() {
            assert(trade_is(ts1[i], f1[i]));
        } else {
            assert(trade_is(ts2[i - ts1.len()], f2[i - ts1.len()]));
        }
    }
}

proof fn lemma_levels_finite(m: OrderMap)
    ensures
        levels(m).dom() == m@.dom(),
        levels(m).dom().finite(),
{
    assert(levels(m).dom() =~= m@.dom());
}

proof fn lemma_levels_insert(m: OrderMap, m2: OrderMap, p: Price, q: OrderQueue)
    requires
        m2@ == m@.insert(p, q),
    ensures
        levels(m2) == levels(m).insert(p, q@),
{
    assert(levels(m2) =~= levels(m).insert(p, q@));
}

proof fn lemma_levels_remove(m: OrderMap, m2: OrderMap, p: Price)
    requires
        m2@ == m@.remove(p),
    ensures
        levels(m2) == levels(m).remove(p),
{
    assert(levels(m2) =~= levels(m).remove(p));
}

/// Rests `order` at the back of its price level on its own side.
fn push_side(own: &mut OrderMap, prices: &mut BTreeSet<Price>, order: Order)
    requires
        side_wf(*old(own), old(prices)@, order.side),
        order.executed < order.quantity,
    ensures
        side_wf(*final(own), final(prices)@, order.side),
        levels(*final(own)) == rest(levels(*old(own)), order),
{
    let price = order.price;
    add_price(prices, price);
    let ghost m0 = *own;
    let mut level = match own.remove(&price) {
        Some(l) => l,
        None => LinkedHashmap::new(),
    };
    let ghost m1 = *own;
    assert(level@ == (if levels(m0).contains_key(price) {
        levels(m0)[price]
    } else {
        Seq::empty()
    }));
    level.push(order);
    own.insert(price, level);
    proof {
        lemma_levels_remove(m0, m1, price);
        lemma_levels_insert(m1, *own, price, level);
        assert(levels(*own) =~= rest(levels(m0), order));
        assert(prices@ =~= own@.dom());
        assert forall|p: Price| #[trigger] own@.contains_key(p) implies {
            &&& own@[p].wf()
            &&& own@[p]@.len() > 0
            &&& level_ok(own@[p]@, p, order.side)
        } by {
            if p != price {
                assert(m0@.contains_key(p));
            } else {
                assert forall|i: int| 0 <= i < level@.len() implies #[trigger] level@[i].price == p
                    && level@[i].side == order.side && level@[i].executed < level@[i].quantity by {
                    if m0@.contains_key(price) {
                        assert(m0@[price]@ == levels(m0)[price]);
                    }
                }
            }
        }
    }
}

/// Matches `order` against the opposite side (`opp`, `opp_prices`) and rests
/// what is left of it on its own side (`own`, `own_prices`).
fn match_against(
    own: &mut OrderMap,
    own_prices: &mut BTreeSet<Price>,
    opp: &mut OrderMap,
    opp_prices: &mut BTreeSet<Price>,
    order: Order,
) -> (trades: Vec<Trade>)
    requires
        side_wf(*old(own), old(own_prices)@, order.side),
        side_wf(*old(opp), old(opp_prices)@, opposite(order.side)),
        order.executed <= order.quantity,
    ensures
        side_wf(*final(own), final(own_prices)@, order.side),
        side_wf(*final(opp), final(opp_prices)@, opposite(order.side)),
        ({
            let r = match_order(levels(*old(own)), levels(*old(opp)), order);
            &&& levels(*final(own)) == r.0
            &&& levels(*final(opp)) == r.1
            &&& trades_are(trades@, r.2)
        }),
{
    let ghost own0 = levels(*own);
    let ghost opp0 = levels(*opp);
    let ghost order0 = order;
    proof {
        lemma_levels_finite(*opp);
    }
    let mut order = order;
    let mut trades: Vec<Trade> = Vec::new();
    let ghost mut fills: Seq<Fill> = Seq::empty();
    loop
        invariant_except_break
            match_order(own0, opp0, order0) == ({
                let r = match_order(levels(*own), levels(*opp), order);
                (r.0, r.1, fills + r.2)
            }),
        invariant
            side_wf(*own, own_prices@, order0.side),
            side_wf(*opp, opp_prices@, opposite(order0.side)),
            order.executed <= order.quantity,
            order.side == order0.side,
            order.price == order0.price,
            order.id == order0.id,
            levels(*opp).dom().finite(),
            trades_are(trades@, fills),
        ensures
            side_wf(*own, own_prices@, order0.side),
            side_wf(*opp, opp_prices@, opposite(order0.side)),
            match_order(own0, opp0, order0) == (levels(*own), levels(*opp), fills),
            trades_are(trades@, fills),
        decreases levels(*opp).dom().len() + (if complete(order) {
            0int
        } else {
            1int
        }),
    {
        let ghost own1 = levels(*own);
        let ghost opp1 = levels(*opp);
        proof {
            lemma_levels_finite(*opp);
        }
        if order.is_complete() {
            proof {
                lemma_match_complete(own1, opp1, order);
                assert(fills + Seq::<Fill>::empty() =~= fills);
            }
            break;
        }
        let best = if order.side == Side::Bid {
            lowest(opp_prices)
        } else {
            highest(opp_prices)
        };
        let best_price = match best {
            Some(p) => p,
            None => {
                proof {
                    assert(opp1.dom() =~= Set::<Price>::empty());
                    lemma_match_rests(own1, opp1, order);
                    assert(fills + Seq::<Fill>::empty() =~= fills);
                }
                push_side(own, own_prices, order);
                break;
            },
        };
        proof {
            lemma_best_price(order.side, opp1.dom(), best_price);
        }
        if (order.side == Side::Bid && best_price > order.price) || (order.side == Side::Ask
            && best_price < order.price) {
            proof {
                lemma_match_rests(own1, opp1, order);
                assert(fills + Seq::<Fill>::empty() =~= fills);
            }
            push_side(own, own_prices, order);
            break;
        }
        proof {
            lemma_match_sweeps(own1, opp1, order, best_price);
        }
        let ghost m_before = *opp;
        let mut queue = match opp.remove(&best_price) {
            Some(q) => q,
            None => {
                push_side(own, own_prices, order);
                break;
            },
        };
        let ghost m_removed = *opp;
        proof {
            lemma_levels_remove(m_before, m_removed, best_price);
            lemma_levels_finite(m_removed);
            assert(queue@ == opp1[best_price]);
        }
        let ghost order_before = order;
        let ghost trades_before = trades@;
        fill_from_level(&mut queue, &mut order, best_price, &mut trades);
        let ghost r = fill_level(order_before, opp1[best_price], best_price);
        let ghost fills_before = fills;
        proof {
            let added = trades@.subrange(trades_before.len() as int, trades@.len() as int);
            assert(trades@ =~= trades_before + added);
            lemma_trades_concat(trades_before, added, fills, r.2);
            fills = fills + r.2;
        }
        if queue.is_empty() {
            drop_price(opp_prices, best_price);
            proof {
                assert(opp_prices@ =~= opp@.dom());
                let m = match_order(own1, opp1.remove(best_price), order);
                assert(fills_before + (r.2 + m.2) =~= fills + m.2);
            }
        } else {
            opp.insert(best_price, queue);
            proof {
                lemma_levels_insert(m_removed, *opp, best_price, queue);
                assert(levels(*opp) =~= opp1.insert(best_price, queue@));
                assert(opp@.dom() =~= m_before@.dom());
                lemma_levels_finite(*opp);
                lemma_match_complete(own1, levels(*opp), order);
                assert(fills + Seq::<Fill>::empty() =~= fills);
            }
        }
    }
    trades
}

/// The level at `p` with the order `id` taken out; a level left empty goes.
pub open spec fn cancel_in(m: Map<Price, Seq<Order>>, p: Price, id: u128) -> Map<Price, Seq<Order>> {
    if m.contains_key(p) && keys_of(m[p]).contains(id) {
        let l = m[p].remove(keys_of(m[p]).index_of(id));
        if l.len() == 0 {
            m.remove(p)
        } else {
            m.insert(p, l)
        }
    } else {
        m
    }
}

/// Takes the order `id` out of the level at `price` on one side.
fn cancel_side(own: &mut OrderMap, prices: &mut BTreeSet<Price>, price: Price, id: u128, side: Side)
    requires
        side_wf(*old(own), old(prices)@, side),
    ensures
        side_wf(*final(own), final(prices)@, side),
        levels(*final(own)) == cancel_in(levels(*old(own)), price, id),
{
    let ghost m0 = *own;
    proof {
        lemma_levels_finite(m0);
    }
    match own.remove(&price) {
        Some(mut queue) => {
            let ghost m1 = *own;
            proof {
                lemma_levels_remove(m0, m1, price);
                assert(queue@ == levels(m0)[price]);
            }
            queue.remove(&id);
            if queue.is_empty() {
                drop_price(prices, price);
                proof {
                    assert(prices@ =~= own@.dom());
                    if !keys_of(levels(m0)[price]).contains(id) {
                        assert(queue@ == levels(m0)[price]);
                    }
                }
            } else {
                own.insert(price, queue);
                proof {
                    lemma_levels_insert(m1, *own, price, queue);
                    assert(prices@ =~= own@.dom());
                    if !keys_of(levels(m0)[price]).contains(id) {
                        assert(levels(*own) =~= levels(m0));
                    }
                    assert forall|i: int| 0 <= i < queue@.len() implies #[trigger] queue@[i].price
                        == price && queue@[i].side == side && queue@[i].executed
                        < queue@[i].quantity by {
                        if keys_of(levels(m0)[price]).contains(id) {
                            let k = keys_of(levels(m0)[price]).index_of(id);
                            if i < k {
                                assert(queue@[i] == levels(m0)[price][i]);
                            } else {
                                assert(queue@[i] == levels(m0)[price][i + 1]);
                            }
                        }
                    }
                }
            }
        },
        None => {
            drop_price(prices, price);
            proof {
                assert(own@ =~= m0@);
                assert(prices@ =~= own@.dom());
            }
        },
    }
}

/// Resting bids and asks by price level, with the set of prices of each
/// side kept beside its levels.
pub struct OrderBook {
    pub bids: OrderMap,
    pub asks: OrderMap,
    pub bids_queue: BidQueue,
    pub asks_queue: AskQueue,
}

impl OrderBook {
    /// Both sides are consistent: levels are listed by their price sets,
    /// non-empty, and hold unfilled orders of that side at that price.
    pub open spec fn wf(&self) -> bool {
        &&& side_wf(self.bids, self.bids_queue@, Side::Bid)
        &&& side_wf(self.asks, self.asks_queue@, Side::Ask)
    }

    pub open spec fn bid_levels(&self) -> Map<Price, Seq<Order>> {
        levels(self.bids)
    }

    pub open spec fn ask_levels(&self) -> Map<Price, Seq<Order>> {
        levels(self.asks)
    }

    /// The levels of `side`.
    pub open spec fn side_levels(&self, side: Side) -> Map<Price, Seq<Order>> {
        if side == Side::Bid {
            self.bid_levels()
        } else {
            self.ask_levels()
        }
    }

    pub fn new() -> (b: Self)
        ensures
            b.wf(),
            b.bid_levels() == Map::<Price, Seq<Order>>::empty(),
            b.ask_levels() == Map::<Price, Seq<Order>>::empty(),
    {
        let b = OrderBook {
            bids: HashMap::new(),
            asks: HashMap::new(),
            bids_queue: BTreeSet::new(),
            asks_queue: BTreeSet::new(),
        };
        assert(b.bid_levels() =~= Map::<Price, Seq<Order>>::empty());
        assert(b.ask_levels() =~= Map::<Price, Seq<Order>>::empty());
        assert(b.bids_queue@ =~= b.bids@.dom());
        assert(b.asks_queue@ =~= b.asks@.dom());
        b
    }

    /// The best price `order` could trade at: the least ask for a bid, the
    /// greatest bid for an ask; `None` when the opposite side is empty.
    pub fn get_best_price(&self, order: &Order) -> (r: Option<Price>)
        requires
            self.wf(),
        ensures
            ({
                let opp = self.side_levels(opposite(order.side));
                &&& r is None <==> opp.dom() == Set::<Price>::empty()
                &&& r matches Some(p) ==> opp.contains_key(p) && p == best_price_of(
                    order.side,
                    opp.dom(),
                )
            }),
    {
        proof {
            lemma_levels_finite(self.bids);
            lemma_levels_finite(self.asks);
        }
        let r = match order.side {
            Side::Bid => lowest(&self.asks_queue),
            Side::Ask => highest(&self.bids_queue),
        };
        proof {
            if let Some(p) = r {
                lemma_best_price(order.side, self.side_levels(opposite(order.side)).dom(), p);
            }
        }
        r
    }

    /// Matches `order` against the book in price-time priority and rests
    /// what is left of it; returns one trade per fill, in execution order.
    pub fn execute(&mut self, order: Order) -> (trades: Vec<Trade>)
        requires
            old(self).wf(),
            order.executed <= order.quantity,
        ensures
            final(self).wf(),
            ({
                let r = match_order(
                    old(self).side_levels(order.side),
                    old(self).side_levels(opposite(order.side)),
                    order,
                );
                &&& final(self).side_levels(order.side) == r.0
                &&& final(self).side_levels(opposite(order.side)) == r.1
                &&& trades_are(trades@, r.2)
            }),
    {
        match order.side {
            Side::Bid => match_against(
                &mut self.bids,
                &mut self.bids_queue,
                &mut self.asks,
                &mut self.asks_queue,
                order,
            ),
            Side::Ask => match_against(
                &mut self.asks,
                &mut self.asks_queue,
                &mut self.bids,
                &mut self.bids_queue,
                order,
            ),
        }
    }

    /// Takes the order out of the book: it is looked up by its side, price
    /// and identifier; a level left empty is removed with its price.
    pub fn cancel(&mut self, order: Order)
        requires
            old(self).wf(),
        ensures
            final(self).wf(),
            final(self).side_levels(order.side) == cancel_in(
                old(self).side_levels(order.side),
                order.price,
                order.id,
            ),
            final(self).side_levels(opposite(order.side)) == old(self).side_levels(
                opposite(order.side),
            ),
    {
        match order.side {
            Side::Bid => cancel_side(&mut self.bids, &mut self.bids_queue, order.price, order.id, Side::Bid),
            Side::Ask => cancel_side(&mut self.asks, &mut self.asks_queue, order.price, order.id, Side::Ask),
        }
    }
}

} // verus!
