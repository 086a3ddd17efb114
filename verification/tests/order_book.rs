use match_core::engine::order::{Mode, Order, Side};
use match_core::engine::order_book::OrderBook;
use uuid::Uuid;

fn owner() -> u128 {
    Uuid::new_v4().as_u128()
}

#[test]
fn order_book_creation() {
    let book = OrderBook::new();
    let order = Order::new(owner(), 100, 10, Side::Ask, Mode::Limit);

    assert!(book.bids.is_empty(), "bids map should be empty");
    assert!(book.asks.is_empty(), "asks map should be empty");
    assert!(book.bids_queue.is_empty(), "bids queue should be empty");
    assert!(book.asks_queue.is_empty(), "asks queue should be empty");
    assert_eq!(book.get_best_price(&order), None);
}

#[test]
fn execute_without_trades() {
    let mut book = OrderBook::new();
    let best_price = 10;
    let ask_order_1 = Order::new(owner(), 100, best_price, Side::Ask, Mode::Market);
    let ask_order_2 = Order::new(owner(), 100, 15, Side::Ask, Mode::Market);
    let bid_order_1 = Order::new(owner(), 100, 9, Side::Bid, Mode::Market);

    book.execute(ask_order_1);
    book.execute(ask_order_2);

    assert_eq!(book.get_best_price(&bid_order_1), Some(best_price));

    let trades = book.execute(bid_order_1);

    assert_eq!(trades.len(), 0);
}

#[test]
fn execute_with_one_trade() {
    let mut book = OrderBook::new();
    let best_price = 10;
    let ask_order_1 = Order::new(owner(), 100, best_price, Side::Ask, Mode::Market);
    let ask_order_2 = Order::new(owner(), 100, 15, Side::Ask, Mode::Market);
    let bid_order_1 = Order::new(owner(), 100, best_price, Side::Bid, Mode::Market);

    book.execute(ask_order_1);
    book.execute(ask_order_2);

    assert_eq!(book.get_best_price(&bid_order_1), Some(best_price));

    let trades = book.execute(bid_order_1);

    assert_eq!(trades.len(), 1);
}

#[test]
fn execute_with_two_trades() {
    let mut book = OrderBook::new();
    let ask_order_1 = Order::new(owner(), 100, 10, Side::Ask, Mode::Market);
    let ask_order_2 = Order::new(owner(), 100, 9, Side::Ask, Mode::Market);
    let bid_order_1 = Order::new(owner(), 200, 12, Side::Bid, Mode::Market);

    book.execute(ask_order_1);
    book.execute(ask_order_2);

    let trades = book.execute(bid_order_1);

    assert_eq!(trades.len(), 2);
}

#[test]
fn cancel_candidate() {
    let mut book = OrderBook::new();
    let ask_order_1 = Order::new(owner(), 100, 10, Side::Ask, Mode::Market);
    let ask_order_2 = Order::new(owner(), 100, 9, Side::Ask, Mode::Market);
    let bid_order_1 = Order::new(owner(), 200, 12, Side::Bid, Mode::Market);
    let ask_order_clone = ask_order_2.clone();

    book.execute(ask_order_1);
    book.execute(ask_order_2);

    book.cancel(ask_order_clone);

    let trades = book.execute(bid_order_1);

    assert_eq!(trades.len(), 1);
}

#[test]
fn trades_follow_price_then_time_priority() {
    let mut book = OrderBook::new();
    let a1 = Order::new(owner(), 50, 10, Side::Ask, Mode::Limit);
    let a2 = Order::new(owner(), 50, 9, Side::Ask, Mode::Limit);
    let a3 = Order::new(owner(), 50, 9, Side::Ask, Mode::Limit);
    let (id1, id2, id3) = (a1.id, a2.id, a3.id);
    book.execute(a1);
    book.execute(a2);
    book.execute(a3);
    let bid = Order::new(owner(), 120, 10, Side::Bid, Mode::Limit);
    let bid_id = bid.id;
    let trades = book.execute(bid);
    assert_eq!(trades.len(), 3);
    assert_eq!((trades[0].bid_id, trades[0].price, trades[0].amount), (id2, 9, 50));
    assert_eq!((trades[1].bid_id, trades[1].price, trades[1].amount), (id3, 9, 50));
    assert_eq!((trades[2].bid_id, trades[2].price, trades[2].amount), (id1, 10, 20));
    assert!(trades.iter().all(|t| t.ask_id == bid_id));
    // the partly filled maker keeps its place with 30 left
    assert_eq!(book.asks.get(&10).unwrap().peek().unwrap().executed, 20);
    assert!(book.bids.is_empty());
    assert!(!book.asks_queue.contains(&9));
}

#[test]
fn unfilled_remainder_rests_and_book_stays_uncrossed() {
    let mut book = OrderBook::new();
    book.execute(Order::new(owner(), 10, 20, Side::Ask, Mode::Limit));
    let bid = Order::new(owner(), 30, 25, Side::Bid, Mode::Limit);
    let trades = book.execute(bid);
    assert_eq!(trades.len(), 1);
    assert_eq!(trades[0].amount, 10);
    assert_eq!(trades[0].price, 20);
    assert!(book.asks.is_empty());
    let resting = book.bids.get(&25).unwrap().peek().unwrap();
    assert_eq!(resting.executed, 10);
    assert_eq!(book.bids_queue.iter().copied().collect::<Vec<_>>(), vec![25]);
    let probe = Order::new(owner(), 1, 1, Side::Ask, Mode::Limit);
    assert_eq!(book.get_best_price(&probe), Some(25));
}

#[test]
fn ask_taker_never_trades_below_its_limit() {
    let mut book = OrderBook::new();
    book.execute(Order::new(owner(), 10, 8, Side::Bid, Mode::Limit));
    book.execute(Order::new(owner(), 10, 12, Side::Bid, Mode::Limit));
    let trades = book.execute(Order::new(owner(), 25, 10, Side::Ask, Mode::Limit));
    assert_eq!(trades.len(), 1);
    assert_eq!(trades[0].price, 12);
    assert!(book.asks_queue.contains(&10));
    assert!(book.bids_queue.contains(&8));
    assert!(!book.bids_queue.contains(&12));
}

#[test]
fn cancel_of_unknown_order_changes_nothing_and_empty_level_goes() {
    let mut book = OrderBook::new();
    let a = Order::new(owner(), 5, 11, Side::Ask, Mode::Limit);
    book.execute(a.clone());
    book.cancel(Order::new(owner(), 5, 11, Side::Ask, Mode::Limit));
    assert_eq!(book.asks.get(&11).unwrap().len(), 1);
    book.cancel(a);
    assert!(book.asks.is_empty());
    assert!(book.asks_queue.is_empty());
}

#[test]
fn complete_taker_is_neither_matched_nor_rested() {
    let mut book = OrderBook::new();
    book.execute(Order::new(owner(), 10, 5, Side::Ask, Mode::Limit));
    let trades = book.execute(Order::new(owner(), 0, 9, Side::Bid, Mode::Limit));
    assert!(trades.is_empty());
    assert!(book.bids.is_empty());
    assert_eq!(book.asks.get(&5).unwrap().len(), 1);
}
