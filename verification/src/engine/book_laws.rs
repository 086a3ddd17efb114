use vstd::prelude::*;

use super::linked_hashmap::keys_of;
use super::order::{complete, filled, pending, Order, Price, Side};
use super::order_book::{
    OrderBook,
    best_price_of, cancel_in, crosses, fill_level, lemma_match_complete, lemma_match_rests,
    lemma_match_sweeps, match_order, rest, Fill,
};

verus! {

/// Every bid price is below every ask price.
pub open spec fn book_uncrossed(bids: Map<Price, Seq<Order>>, asks: Map<Price, Seq<Order>>) -> bool {
    forall|b: Price, a: Price| #[trigger] bids.contains_key(b) && #[trigger] asks.contains_key(a) ==> b < a
}

/// `book_uncrossed` for a taker of `side`, whose own side is `own`.
pub open spec fn uncrossed_for(
    side: Side,
    own: Map<Price, Seq<Order>>,
    opp: Map<Price, Seq<Order>>,
) -> bool {
    if side == Side::Bid {
        book_uncrossed(own, opp)
    } else {
        book_uncrossed(opp, own)
    }
}

/// No order of any level is filled beyond its size.
pub open spec fn levels_sane(m: Map<Price, Seq<Order>>) -> bool {
    forall|p: Price, i: int|
        #![trigger m[p][i]]
        m.contains_key(p) && 0 <= i < m[p].len() ==> m[p][i].executed <= m[p][i].quantity
}

/// Total quantity of a sequence of fills.
pub open spec fn fills_total(fs: Seq<Fill>) -> int
    decreases fs.len(),
{
    if fs.len() == 0 {
        0
    } else {
        fs[0].quantity + fills_total(fs.drop_first())
    }
}

proof fn lemma_has_least(s: Set<Price>)
    requires
        s.finite(),
        s.len() > 0,
    ensures
        exists|p: Price| s.contains(p) && forall|q: Price| s.contains(q) ==> p <= q,
    decreases s.len(),
{
    let x = s.choose();
    assert(s.contains(x));
    let t = s.remove(x);
    if t.len() == 0 {
        assert forall|q: Price| s.contains(q) implies x <= q by {
            if q != x {
                assert(t.contains(q));
            }
        }
    } else {
        lemma_has_least(t);
        let m = choose|p: Price| t.contains(p) && forall|q: Price| t.contains(q) ==> p <= q;
        if m <= x {
            assert forall|q: Price| s.contains(q) implies m <= q by {
                if q != x {
                    assert(t.contains(q));
                }
            }
        } else {
            assert forall|q: Price| s.contains(q) implies x <= q by {
                if q != x {
                    assert(t.contains(q));
                }
            }
        }
    }
}

proof fn lemma_has_greatest(s: Set<Price>)
    requires
        s.finite(),
        s.len() > 0,
    ensures
        exists|p: Price| s.contains(p) && forall|q: Price| s.contains(q) ==> q <= p,
    decreases s.len(),
{
    let x = s.choose();
    assert(s.contains(x));
    let t = s.remove(x);
    if t.len() == 0 {
        assert forall|q: Price| s.contains(q) implies q <= x by {
            if q != x {
                assert(t.contains(q));
            }
        }
    } else {
        lemma_has_greatest(t);
        let m = choose|p: Price| t.contains(p) && forall|q: Price| t.contains(q) ==> q <= p;
        if x <= m {
            assert forall|q: Price| s.contains(q) implies q <= m by {
                if q != x {
                    assert(t.contains(q));
                }
            }
        } else {
            assert forall|q: Price| s.contains(q) implies q <= x by {
                if q != x {
                    assert(t.contains(q));
                }
            }
        }
    }
}

/// On a finite price set, `best_price_of` is in the set exactly when the set
/// is not empty, and then it is its least (bid taker) or greatest (ask taker)
/// element.
proof fn lemma_best_price_extreme(side: Side, s: Set<Price>)
    requires
        s.finite(),
    ensures
        s.len() > 0 ==> s.contains(best_price_of(side, s)),
        s.contains(best_price_of(side, s)) ==> (side == Side::Bid ==> forall|q: Price|
            s.contains(q) ==> best_price_of(side, s) <= q),
        s.contains(best_price_of(side, s)) ==> (side != Side::Bid ==> forall|q: Price|
            s.contains(q) ==> q <= best_price_of(side, s)),
{
    if s.len() > 0 {
        if side == Side::Bid {
            lemma_has_least(s);
        } else {
            lemma_has_greatest(s);
        }
    }
    if s.contains(best_price_of(side, s)) {
        assert(s.len() > 0) by {
            if s.len() == 0 {
                assert(s =~= Set::<Price>::empty());
            }
        }
        if side == Side::Bid {
            lemma_has_least(s);
        } else {
            lemma_has_greatest(s);
        }
    }
}

/// Matching one level keeps the taker's identity, side, price and size, and
/// each fill is by this taker at the level's price; the fills add up to what
/// the taker got filled.
proof fn lemma_fill_level(t: Order, l: Seq<Order>, p: Price)
    requires
        t.executed <= t.quantity,
        forall|i: int| #![trigger l[i]] 0 <= i < l.len() ==> l[i].executed <= l[i].quantity,
    ensures
        ({
            let r = fill_level(t, l, p);
            &&& r.0.id == t.id
            &&& r.0.side == t.side
            &&& r.0.price == t.price
            &&& r.0.quantity == t.quantity
            &&& t.executed <= r.0.executed <= r.0.quantity
            &&& fills_total(r.2) == r.0.executed - t.executed
            &&& forall|i: int| 0 <= i < r.2.len() ==> #[trigger] r.2[i].price == p && r.2[i].taker
                == t.id
        }),
    decreases l.len(),
{
    if complete(t) || l.len() == 0 {
    } else {
        let maker = l[0];
        let q = (if pending(t) <= pending(maker) {
            pending(t)
        } else {
            pending(maker)
        }) as u64;
        let t2 = filled(t, q);
        let f = Fill { taker: t.id, maker: maker.id, quantity: q, price: p };
        assert(fills_total(seq![f]) == q) by {
            assert(seq![f].drop_first() =~= Seq::<Fill>::empty());
            assert(fills_total(Seq::<Fill>::empty()) == 0);
        }
        if !complete(filled(maker, q)) {
        } else {
            assert forall|i: int| #![trigger l.drop_first()[i]] 0 <= i < l.drop_first().len()
                implies l.drop_first()[i].executed <= l.drop_first()[i].quantity by {
                assert(l.drop_first()[i] == l[i + 1]);
            }
            lemma_fill_level(t2, l.drop_first(), p);
            let r = fill_level(t2, l.drop_first(), p);
            assert((seq![f] + r.2).drop_first() =~= r.2);
            assert((seq![f] + r.2)[0] == f);
            assert(fills_total(seq![f] + r.2) == q + fills_total(r.2));
            assert(t2.executed == t.executed + q);
            assert forall|i: int| 0 <= i < (seq![f] + r.2).len() implies #[trigger] (seq![f]
                + r.2)[i].price == p && (seq![f] + r.2)[i].taker == t.id by {
                if i > 0 {
                    assert((seq![f] + r.2)[i] == r.2[i - 1]);
                }
            }
        }
    }
}

proof fn lemma_fills_total_concat(a: Seq<Fill>, b: Seq<Fill>)
    ensures
        fills_total(a + b) == fills_total(a) + fills_total(b),
    decreases a.len(),
{
    if a.len() == 0 {
        assert(a + b =~= b);
    } else {
        lemma_fills_total_concat(a.drop_first(), b);
        assert((a + b).drop_first() =~= a.drop_first() + b);
    }
}

/// Matching never leaves the book crossed: if every bid was below every ask
/// before an order is matched, the same holds afterwards.
pub proof fn law_matching_keeps_book_uncrossed(
    own: Map<Price, Seq<Order>>,
    opp: Map<Price, Seq<Order>>,
    taker: Order,
)
    requires
        opp.dom().finite(),
        taker.executed <= taker.quantity,
        levels_sane(opp),
        uncrossed_for(taker.side, own, opp),
    ensures
        ({
            let r = match_order(own, opp, taker);
            uncrossed_for(taker.side, r.0, r.1)
        }),
    decreases opp.dom().len(),
{
    if complete(taker) {
        lemma_match_complete(own, opp, taker);
    } else {
        let p = best_price_of(taker.side, opp.dom());
        lemma_best_price_extreme(taker.side, opp.dom());
        if !opp.dom().contains(p) || !crosses(taker, p) {
            lemma_match_rests(own, opp, taker);
            let own2 = rest(own, taker);
            assert(own2.dom() =~= own.dom().insert(taker.price));
            if !opp.dom().contains(p) {
                assert(opp.dom() =~= Set::<Price>::empty()) by {
                    if opp.dom().len() > 0 {
                    }
                }
            }
        } else {
            lemma_match_sweeps(own, opp, taker, p);
            lemma_levels_sane_parts(opp, p);
            let r = fill_level(taker, opp[p], p);
            lemma_fill_level(taker, opp[p], p);
            if r.1.len() == 0 {
                assert(opp.remove(p).dom() =~= opp.dom().remove(p));
                law_matching_keeps_book_uncrossed(own, opp.remove(p), r.0);
            } else {
                assert(opp.insert(p, r.1).dom() =~= opp.dom());
            }
        }
    }
}

proof fn lemma_levels_sane_parts(opp: Map<Price, Seq<Order>>, p: Price)
    requires
        levels_sane(opp),
        opp.contains_key(p),
    ensures
        levels_sane(opp.remove(p)),
        forall|i: int| #![trigger opp[p][i]] 0 <= i < opp[p].len() ==> opp[p][i].executed
            <= opp[p][i].quantity,
{
    assert forall|p2: Price, i: int|
        #![trigger opp.remove(p)[p2][i]]
        opp.remove(p).contains_key(p2) && 0 <= i < opp.remove(p)[p2].len() implies opp.remove(
        p,
    )[p2][i].executed <= opp.remove(p)[p2][i].quantity by {
        assert(opp.remove(p)[p2] == opp[p2]);
    }
}

/// Every fill is by taker `t` at a price that crosses its limit.
pub open spec fn fills_within_limit(t: Order, fs: Seq<Fill>) -> bool {
    forall|i: int| 0 <= i < fs.len() ==> #[trigger] crosses(t, fs[i].price) && fs[i].taker == t.id
}

proof fn lemma_fills_within_limit_concat(t: Order, t2: Order, p: Price, a: Seq<Fill>, b: Seq<Fill>)
    requires
        crosses(t, p),
        forall|i: int| 0 <= i < a.len() ==> #[trigger] a[i].price == p && a[i].taker == t.id,
        fills_within_limit(t2, b),
        t2.side == t.side,
        t2.price == t.price,
        t2.id == t.id,
    ensures
        fills_within_limit(t, a + b),
        fills_within_limit(t, a),
{
    assert forall|i: int| 0 <= i < (a + b).len() implies #[trigger] crosses(t, (a + b)[i].price)
        && (a + b)[i].taker == t.id by {
        if i < a.len() {
            assert((a + b)[i] == a[i]);
            assert(a[i].price == p);
        } else {
            assert((a + b)[i] == b[i - a.len()]);
            assert(crosses(t2, b[i - a.len()].price));
        }
    }
    assert forall|i: int| 0 <= i < a.len() implies #[trigger] crosses(t, a[i].price) && a[i].taker
        == t.id by {
        assert(a[i].price == p);
    }
}

/// Every fill of a match is by the taker, at a price no worse than its
/// limit.
#[verifier::spinoff_prover]
#[verifier::rlimit(50)]
pub proof fn law_fills_respect_limit(
    own: Map<Price, Seq<Order>>,
    opp: Map<Price, Seq<Order>>,
    taker: Order,
)
    requires
        opp.dom().finite(),
        taker.executed <= taker.quantity,
        levels_sane(opp),
    ensures
        fills_within_limit(taker, match_order(own, opp, taker).2),
    decreases opp.dom().len(),
{
    if complete(taker) {
        lemma_match_complete(own, opp, taker);
    } else {
        let p = best_price_of(taker.side, opp.dom());
        if !opp.dom().contains(p) || !crosses(taker, p) {
            lemma_match_rests(own, opp, taker);
        } else {
            lemma_match_sweeps(own, opp, taker, p);
            lemma_levels_sane_parts(opp, p);
            let r = fill_level(taker, opp[p], p);
            lemma_fill_level(taker, opp[p], p);
            if r.1.len() == 0 {
                assert(opp.remove(p).dom() =~= opp.dom().remove(p));
                law_fills_respect_limit(own, opp.remove(p), r.0);
                let m = match_order(own, opp.remove(p), r.0);
                lemma_fills_within_limit_concat(taker, r.0, p, r.2, m.2);
            } else {
                lemma_fills_within_limit_concat(taker, r.0, p, r.2, Seq::empty());
            }
        }
    }
}

/// The fills of a match add up to no more than what the taker had pending.
pub proof fn law_fills_within_size(
    own: Map<Price, Seq<Order>>,
    opp: Map<Price, Seq<Order>>,
    taker: Order,
)
    requires
        opp.dom().finite(),
        taker.executed <= taker.quantity,
        levels_sane(opp),
    ensures
        fills_total(match_order(own, opp, taker).2) <= pending(taker),
    decreases opp.dom().len(),
{
    assert(fills_total(Seq::<Fill>::empty()) == 0);
    if complete(taker) {
        lemma_match_complete(own, opp, taker);
    } else {
        let p = best_price_of(taker.side, opp.dom());
        if !opp.dom().contains(p) || !crosses(taker, p) {
            lemma_match_rests(own, opp, taker);
        } else {
            lemma_match_sweeps(own, opp, taker, p);
            lemma_levels_sane_parts(opp, p);
            let r = fill_level(taker, opp[p], p);
            lemma_fill_level(taker, opp[p], p);
            if r.1.len() == 0 {
                assert(opp.remove(p).dom() =~= opp.dom().remove(p));
                law_fills_within_size(own, opp.remove(p), r.0);
                let m = match_order(own, opp.remove(p), r.0);
                lemma_fills_total_concat(r.2, m.2);
            }
        }
    }
}

/// A cancelled order is no longer at its price level, whatever else rests
/// there.
pub proof fn law_cancelled_order_is_gone(m: Map<Price, Seq<Order>>, p: Price, id: u128)
    requires
        m.contains_key(p) ==> keys_of(m[p]).no_duplicates(),
    ensures
        ({
            let r = cancel_in(m, p, id);
            !(r.contains_key(p) && keys_of(r[p]).contains(id))
        }),
{
    if m.contains_key(p) && keys_of(m[p]).contains(id) {
        let k = keys_of(m[p]).index_of(id);
        let l = m[p].remove(k);
        if l.len() > 0 {
            if keys_of(l).contains(id) {
                let j = choose|j: int| 0 <= j < l.len() && keys_of(l)[j] == id;
                if j < k {
                    assert(keys_of(m[p])[j] == id);
                } else {
                    assert(keys_of(m[p])[j + 1] == id);
                }
            }
        }
    }
}

/// A consistent book meets what the matching laws ask of both sides: finite
/// sides with no order filled beyond its size.
pub proof fn lemma_book_sides(book: &OrderBook)
    requires
        book.wf(),
    ensures
        book.bid_levels().dom().finite(),
        book.ask_levels().dom().finite(),
        levels_sane(book.bid_levels()),
        levels_sane(book.ask_levels()),
{
    assert(book.bid_levels().dom() =~= book.bids@.dom());
    assert(book.ask_levels().dom() =~= book.asks@.dom());
    assert forall|p: Price, i: int|
        #![trigger book.bid_levels()[p][i]]
        book.bid_levels().contains_key(p) && 0 <= i < book.bid_levels()[p].len() implies book.bid_levels()[p][i].executed
        <= book.bid_levels()[p][i].quantity by {
        assert(book.bids@.contains_key(p));
        assert(book.bid_levels()[p] == book.bids@[p]@);
        assert(book.bids@[p]@[i] == book.bid_levels()[p][i]);
    }
    assert forall|p: Price, i: int|
        #![trigger book.ask_levels()[p][i]]
        book.ask_levels().contains_key(p) && 0 <= i < book.ask_levels()[p].len() implies book.ask_levels()[p][i].executed
        <= book.ask_levels()[p][i].quantity by {
        assert(book.asks@.contains_key(p));
        assert(book.ask_levels()[p] == book.asks@[p]@);
        assert(book.asks@[p]@[i] == book.ask_levels()[p][i]);
    }
}


/// Fills come in price order: a bid taker's at non-decreasing prices, an
/// ask taker's at non-increasing prices.
pub open spec fn fills_in_price_order(side: Side, fs: Seq<Fill>) -> bool {
    forall|i: int, j: int|
        #![trigger fs[i], fs[j]]
        0 <= i < j < fs.len() ==> if side == Side::Bid {
            fs[i].price <= fs[j].price
        } else {
            fs[j].price <= fs[i].price
        }
}

/// Price priority: a match trades only at prices where the opposite side had
/// a level, and at the best of them first.
#[verifier::spinoff_prover]
#[verifier::rlimit(50)]
pub proof fn law_fills_best_price_first(
    own: Map<Price, Seq<Order>>,
    opp: Map<Price, Seq<Order>>,
    taker: Order,
)
    requires
        opp.dom().finite(),
        taker.executed <= taker.quantity,
        levels_sane(opp),
    ensures
        ({
            let fs = match_order(own, opp, taker).2;
            &&& forall|i: int| 0 <= i < fs.len() ==> opp.contains_key(#[trigger] fs[i].price)
            &&& fills_in_price_order(taker.side, fs)
        }),
    decreases opp.dom().len(),
{
    if complete(taker) {
        lemma_match_complete(own, opp, taker);
    } else {
        let p = best_price_of(taker.side, opp.dom());
        lemma_best_price_extreme(taker.side, opp.dom());
        if !opp.dom().contains(p) || !crosses(taker, p) {
            lemma_match_rests(own, opp, taker);
        } else {
            lemma_match_sweeps(own, opp, taker, p);
            lemma_levels_sane_parts(opp, p);
            let r = fill_level(taker, opp[p], p);
            lemma_fill_level(taker, opp[p], p);
            if r.1.len() == 0 {
                let rest_opp = opp.remove(p);
                assert(rest_opp.dom() =~= opp.dom().remove(p));
                law_fills_best_price_first(own, rest_opp, r.0);
                let m = match_order(own, rest_opp, r.0);
                let fs = r.2 + m.2;
                assert forall|i: int| 0 <= i < fs.len() implies opp.contains_key(#[trigger] fs[i].price) by {
                    if i < r.2.len() {
                        assert(fs[i] == r.2[i]);
                    } else {
                        assert(fs[i] == m.2[i - r.2.len()]);
                        assert(rest_opp.contains_key(m.2[i - r.2.len()].price));
                    }
                }
                assert forall|i: int, j: int| 0 <= i < j < fs.len() implies (if taker.side == Side::Bid {
                    #[trigger] fs[i].price <= #[trigger] fs[j].price
                } else {
                    fs[j].price <= fs[i].price
                }) by {
                    if j < r.2.len() {
                        assert(fs[i] == r.2[i]);
                        assert(fs[j] == r.2[j]);
                    } else if i < r.2.len() {
                        assert(fs[i] == r.2[i]);
                        assert(fs[j] == m.2[j - r.2.len()]);
                        assert(rest_opp.contains_key(m.2[j - r.2.len()].price));
                        assert(opp.dom().contains(fs[j].price));
                    } else {
                        assert(fs[i] == m.2[i - r.2.len()]);
                        assert(fs[j] == m.2[j - r.2.len()]);
                    }
                }
            }
        }
    }
}

/// Time priority: within a level, resting orders are filled oldest first.
/// The fills of one level hit its orders from the front, in queue order, one
/// fill per order.
pub proof fn law_level_filled_oldest_first(taker: Order, level: Seq<Order>, price: Price)
    ensures
        ({
            let fs = fill_level(taker, level, price).2;
            &&& fs.len() <= level.len()
            &&& forall|i: int| 0 <= i < fs.len() ==> (#[trigger] fs[i]).maker == level[i].id
        }),
    decreases level.len(),
{
    if complete(taker) || level.len() == 0 {
    } else {
        let maker = level[0];
        let q = (if pending(taker) <= pending(maker) {
            pending(taker)
        } else {
            pending(maker)
        }) as u64;
        if complete(filled(maker, q)) {
            let t2 = filled(taker, q);
            law_level_filled_oldest_first(t2, level.drop_first(), price);
            let r = fill_level(t2, level.drop_first(), price);
            let f = Fill { taker: taker.id, maker: maker.id, quantity: q, price };
            assert forall|i: int| 0 <= i < (seq![f] + r.2).len() implies (#[trigger] (seq![f] + r.2)[i]).maker
                == level[i].id by {
                if i > 0 {
                    assert((seq![f] + r.2)[i] == r.2[i - 1]);
                    assert(level.drop_first()[i - 1] == level[i]);
                }
            }
        }
    }
}


/// The orders of a sequence whose identifier is not `id`.
pub open spec fn other_than(id: u128) -> spec_fn(Order) -> bool {
    |o: Order| o.id != id
}

proof fn lemma_filter_keeps_all(s: Seq<Order>, id: u128)
    requires
        !keys_of(s).contains(id),
    ensures
        s.filter(other_than(id)) == s,
    decreases s.len(),
{
    reveal(Seq::filter);
    if s.len() > 0 {
        let d = s.drop_last();
        assert(!keys_of(d).contains(id)) by {
            if keys_of(d).contains(id) {
                let j = choose|j: int| 0 <= j < keys_of(d).len() && keys_of(d)[j] == id;
                assert(keys_of(s)[j] == id);
            }
        }
        lemma_filter_keeps_all(d, id);
        assert(keys_of(s)[s.len() - 1] == s.last().id);
        assert(other_than(id)(s.last()));
        assert(d.push(s.last()) =~= s);
    }
}

proof fn lemma_filter_drops_one(s: Seq<Order>, k: int, id: u128)
    requires
        0 <= k < s.len(),
        s[k].id == id,
        keys_of(s).no_duplicates(),
    ensures
        s.filter(other_than(id)) == s.remove(k),
    decreases s.len(),
{
    reveal(Seq::filter);
    let d = s.drop_last();
    assert(keys_of(d) =~= keys_of(s).drop_last());
    if k == s.len() - 1 {
        assert(!keys_of(d).contains(id)) by {
            if keys_of(d).contains(id) {
                let j = choose|j: int| 0 <= j < keys_of(d).len() && keys_of(d)[j] == id;
                assert(keys_of(s)[j] == keys_of(s)[k]);
            }
        }
        lemma_filter_keeps_all(d, id);
        assert(s.remove(k) =~= d);
    } else {
        assert(keys_of(s)[s.len() - 1] != keys_of(s)[k]);
        assert(other_than(id)(s.last()));
        lemma_filter_drops_one(d, k, id);
        assert(d.remove(k).push(s.last()) =~= s.remove(k));
    }
}

/// Cancelling takes out exactly the one order with the given identifier:
/// the other orders of its level stay, in the same order, the level goes
/// only when no other order is left in it, and every other level is left as
/// it was.
pub proof fn law_cancel_keeps_the_rest_of_the_level(m: Map<Price, Seq<Order>>, p: Price, id: u128)
    requires
        m.contains_key(p) ==> keys_of(m[p]).no_duplicates() && m[p].len() > 0,
    ensures
        ({
            let r = cancel_in(m, p, id);
            &&& forall|q: Price| q != p ==> (#[trigger] r.contains_key(q) == m.contains_key(q))
            &&& forall|q: Price| q != p && m.contains_key(q) ==> #[trigger] r[q] == m[q]
            &&& !m.contains_key(p) ==> !r.contains_key(p)
            &&& m.contains_key(p) ==> {
                let others = m[p].filter(other_than(id));
                &&& others.len() > 0 ==> r.contains_key(p) && r[p] == others
                &&& others.len() == 0 ==> !r.contains_key(p)
            }
        }),
{
    if m.contains_key(p) {
        if keys_of(m[p]).contains(id) {
            let k = keys_of(m[p]).index_of(id);
            lemma_filter_drops_one(m[p], k, id);
        } else {
            lemma_filter_keeps_all(m[p], id);
        }
    }
}

/// Time priority across executions: matching consumes a level from its
/// front. What is left of the level is, by identifiers, a suffix of it, and
/// all of it behind its front order is untouched: a maker left partly filled
/// keeps its place at the front, ahead of the orders that came after it.
pub proof fn law_level_consumed_from_front(taker: Order, level: Seq<Order>, price: Price)
    ensures
        exists|k: int|
            0 <= k <= level.len() && {
                let left = fill_level(taker, level, price).1;
                &&& keys_of(left) == keys_of(#[trigger] level.subrange(k, level.len() as int))
                &&& left.len() > 0 ==> left.drop_first() == level.subrange(k + 1, level.len() as int)
            },
    decreases level.len(),
{
    let left = fill_level(taker, level, price).1;
    if complete(taker) || level.len() == 0 {
        assert(level.subrange(0, level.len() as int) =~= level);
        if level.len() > 0 {
            assert(level.drop_first() =~= level.subrange(1, level.len() as int));
        }
        assert(0 <= 0int <= level.len());
    } else {
        let maker = level[0];
        let q = (if pending(taker) <= pending(maker) {
            pending(taker)
        } else {
            pending(maker)
        }) as u64;
        if !complete(filled(maker, q)) {
            assert(left == seq![filled(maker, q)] + level.drop_first());
            assert(keys_of(left) =~= keys_of(level.subrange(0, level.len() as int)));
            assert(left.drop_first() =~= level.subrange(1, level.len() as int));
            assert(0 <= 0int <= level.len());
        } else {
            let rest = level.drop_first();
            law_level_consumed_from_front(filled(taker, q), rest, price);
            let k = choose|k: int|
                0 <= k <= rest.len() && {
                    let l2 = fill_level(filled(taker, q), rest, price).1;
                    &&& keys_of(l2) == keys_of(#[trigger] rest.subrange(k, rest.len() as int))
                    &&& l2.len() > 0 ==> l2.drop_first() == rest.subrange(k + 1, rest.len() as int)
                };
            assert(left == fill_level(filled(taker, q), rest, price).1);
            assert(rest.subrange(k, rest.len() as int) =~= level.subrange(k + 1, level.len() as int));
            if left.len() > 0 {
                assert(keys_of(left).len() == left.len());
                assert(keys_of(rest.subrange(k, rest.len() as int)).len() == rest.len() - k);
                assert(k < rest.len());
                assert(rest.subrange(k + 1, rest.len() as int) =~= level.subrange(k + 2, level.len() as int));
            }
            assert(0 <= k + 1 <= level.len());
        }
    }
}

} // verus!
