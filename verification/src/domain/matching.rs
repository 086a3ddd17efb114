use vstd::prelude::*;

use super::order::Order;
use super::orderbook::OrderBook;
use crate::shared::command::{Command, NewOrderCommand};
use crate::shared::event::{Event, OrderAccepted};

verus! {

/// The book order a new-order command describes, with nothing filled yet.
pub open spec fn order_from(c: NewOrderCommand) -> Order {
    Order {
        order_id: c.order_id,
        user_id: c.user_id,
        symbol: c.symbol,
        side: c.side,
        order_type: c.order_type,
        price: c.price,
        quantity: c.quantity,
        remaining: c.quantity,
        timestamp: c.timestamp,
        time_in_force: c.time_in_force,
    }
}

/// The events a command gives: a new order is accepted; a cancel gives none.
pub open spec fn command_events(command: Command) -> Seq<Event> {
    match command {
        Command::NewOrder(c) => seq![
            Event::OrderAccepted(
                OrderAccepted { order_id: c.order_id, user_id: c.user_id, symbol: c.symbol },
            ),
        ],
        Command::CancelOrder(_) => Seq::empty(),
    }
}

/// What a command does to the book: a new order is filed at its level; a
/// cancel leaves the book as it is.
pub open spec fn command_applied(before: OrderBook, after: OrderBook, command: Command) -> bool {
    match command {
        Command::NewOrder(c) => {
            let o = order_from(c);
            if o.side == crate::shared::types::Side::Buy {
                after.bid_levels() == super::orderbook::append_level(
                    before.bid_levels(),
                    super::orderbook::price_key(o.price),
                    o,
                ) && after.ask_levels() == before.ask_levels()
            } else {
                after.ask_levels() == super::orderbook::append_level(
                    before.ask_levels(),
                    super::orderbook::price_key(o.price),
                    o,
                ) && after.bid_levels() == before.bid_levels()
            }
        },
        Command::CancelOrder(_) => after.bid_levels() == before.bid_levels()
            && after.ask_levels() == before.ask_levels(),
    }
}

/// Applies commands to the order book and reports what happened.
pub struct MatchingEngine {
    pub book: OrderBook,
}

impl MatchingEngine {
    pub fn new() -> (m: Self)
        ensures
            m.book.bid_levels() == Map::<u64, Seq<Order>>::empty(),
            m.book.ask_levels() == Map::<u64, Seq<Order>>::empty(),
    {
        MatchingEngine { book: OrderBook::new() }
    }

    pub fn process(&mut self, _command_seq: u64, command: Command) -> (events: Vec<Event>)
        ensures
            events@ == command_events(command),
            command_applied(old(self).book, final(self).book, command),
    {
        match command {
            Command::NewOrder(cmd) => self.process_new_order(cmd),
            Command::CancelOrder(_cmd) => Vec::new(),
        }
    }

    fn process_new_order(&mut self, cmd: NewOrderCommand) -> (events: Vec<Event>)
        ensures
            events@ == command_events(Command::NewOrder(cmd)),
            command_applied(old(self).book, final(self).book, Command::NewOrder(cmd)),
    {
        let mut events: Vec<Event> = Vec::new();
        let accepted = OrderAccepted {
            order_id: cmd.order_id.clone(),
            user_id: cmd.user_id.clone(),
            symbol: cmd.symbol.clone(),
        };
        let order = Order {
            order_id: cmd.order_id,
            user_id: cmd.user_id,
            symbol: cmd.symbol,
            side: cmd.side,
            order_type: cmd.order_type,
            price: cmd.price,
            quantity: cmd.quantity,
            remaining: cmd.quantity,
            timestamp: cmd.timestamp,
            time_in_force: cmd.time_in_force,
        };
        self.book.add_order(order);
        events.push(Event::OrderAccepted(accepted));
        assert(events@ =~= command_events(Command::NewOrder(cmd)));
        events
    }

    /// Re-applies a logged command during recovery, dropping its events.
    pub fn process_replay(&mut self, command: Command)
        ensures
            command_applied(old(self).book, final(self).book, command),
    {
        self.process(0, command);
    }
}

/// A new-order command files, at the back of the level of its price on its
/// side, an order that carries every field of the command, with all of its
/// quantity remaining; the orders already at that level stay ahead of it and
/// the other side is untouched.
pub proof fn law_new_order_filed_as_commanded(before: OrderBook, after: OrderBook, c: NewOrderCommand)
    requires
        command_applied(before, after, Command::NewOrder(c)),
    ensures
        ({
            let key = super::orderbook::price_key(c.price);
            let (b, a) = if c.side == crate::shared::types::Side::Buy {
                (before.bid_levels(), after.bid_levels())
            } else {
                (before.ask_levels(), after.ask_levels())
            };
            let o = a[key].last();
            &&& a.contains_key(key)
            &&& a[key].len() > 0
            &&& o.order_id == c.order_id
            &&& o.user_id == c.user_id
            &&& o.symbol == c.symbol
            &&& o.side == c.side
            &&& o.order_type == c.order_type
            &&& o.price == c.price
            &&& o.quantity == c.quantity
            &&& o.remaining == c.quantity
            &&& o.timestamp == c.timestamp
            &&& o.time_in_force == c.time_in_force
            &&& a[key].drop_last() == (if b.contains_key(key) {
                b[key]
            } else {
                Seq::<Order>::empty()
            })
            &&& forall|k: u64| k != key ==> #[trigger] a.contains_key(k) == b.contains_key(k)
                && (b.contains_key(k) ==> a[k] == b[k])
        }),
        c.side == crate::shared::types::Side::Buy ==> after.ask_levels() == before.ask_levels(),
        c.side != crate::shared::types::Side::Buy ==> after.bid_levels() == before.bid_levels(),
{
    let key = super::orderbook::price_key(c.price);
    let b = if c.side == crate::shared::types::Side::Buy {
        before.bid_levels()
    } else {
        before.ask_levels()
    };
    let l = if b.contains_key(key) {
        b[key]
    } else {
        Seq::<Order>::empty()
    };
    assert(l.push(order_from(c)).drop_last() =~= l);
}

} // verus!
