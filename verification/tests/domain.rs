use match_core::domain::matching::MatchingEngine;
use match_core::domain::orderbook::{level_key, OrderBook};
use match_core::domain::order::Order;
use match_core::events::bus::{event_bus_kind, EventBusKind};
use match_core::kernel::engine::Engine;
use match_core::recovery::loader::Loader;
use match_core::recovery::replayer::Replayer;
use match_core::shared::command::{CancelOrderCommand, Command, NewOrderCommand, Side, TimeInForce, Type};
use match_core::shared::event::Event;
use match_core::storage::manifest::Manifest;
use match_core::utils::time::now;

fn new_order(command_id: &str, side: Side, price: f64) -> Command {
    Command::NewOrder(NewOrderCommand {
        command_id: command_id.into(),
        order_id: format!("o-{command_id}"),
        user_id: "u1".into(),
        symbol: "BTC-USD".into(),
        side,
        order_type: Type::Limit,
        price: price.to_bits(),
        quantity: 1.5f64.to_bits(),
        timestamp: 5,
        time_in_force: TimeInForce::GTC,
    })
}

fn cancel(command_id: &str) -> Command {
    Command::CancelOrder(CancelOrderCommand { command_id: command_id.into(), order_id: "o".into(), timestamp: 6 })
}

#[test]
fn new_order_is_accepted_and_filed_at_its_level() {
    let mut m = MatchingEngine::new();
    let events = m.process(1, new_order("a", Side::Buy, 10.0));
    assert_eq!(events.len(), 1);
    match &events[0] {
        Event::OrderAccepted(e) => {
            assert_eq!(e.order_id, "o-a");
            assert_eq!(e.user_id, "u1");
            assert_eq!(e.symbol, "BTC-USD");
        }
        _ => panic!("expected OrderAccepted"),
    }
    m.process(2, new_order("b", Side::Buy, 10.0));
    let level = m.book.bids.get(&level_key(10.0f64.to_bits())).unwrap();
    assert_eq!(level.len(), 2);
    assert_eq!(level[0].order_id, "o-a");
    assert_eq!(level[1].order_id, "o-b");
    assert_eq!(f64::from_bits(level[1].remaining), 1.5);
    assert!(m.book.asks.is_empty());
    assert!(m.process(3, cancel("c")).is_empty());
    m.process_replay(new_order("d", Side::Sell, 11.0));
    assert_eq!(m.book.asks.len(), 1);
}

#[test]
fn level_keys_match_ordered_float_equality_and_order() {
    assert_eq!(level_key(0.0f64.to_bits()), level_key((-0.0f64).to_bits()));
    assert_eq!(level_key(f64::NAN.to_bits()), level_key((-f64::NAN).to_bits()));
    assert_eq!(level_key(f64::NAN.to_bits()), u64::MAX);
    let prices = [f64::NEG_INFINITY, -3.5, -1.0, -0.0, 1e-300, 1.0, 2.5, 1e300, f64::INFINITY];
    for w in prices.windows(2) {
        assert!(level_key(w[0].to_bits()) < level_key(w[1].to_bits()), "{} vs {}", w[0], w[1]);
    }
    assert!(level_key(f64::INFINITY.to_bits()) < level_key(f64::NAN.to_bits()));
    let mut book = OrderBook::new();
    let order = Order {
        order_id: "x".into(),
        user_id: "u".into(),
        symbol: "S".into(),
        side: Side::Sell,
        order_type: Type::Limit,
        price: (-0.0f64).to_bits(),
        quantity: 1.0f64.to_bits(),
        remaining: 1.0f64.to_bits(),
        timestamp: 1,
        time_in_force: TimeInForce::GTC,
    };
    book.add_order(order.clone());
    book.add_order(Order { price: 0.0f64.to_bits(), ..order });
    assert_eq!(book.asks.len(), 1);
    assert_eq!(book.asks.values().next().unwrap().len(), 2);
}

#[test]
fn engine_numbers_commands_and_events_and_skips_duplicates() {
    let mut engine = Engine::new();
    let before = now();
    let d = engine.handle(new_order("a", Side::Buy, 1.0)).unwrap();
    assert_eq!(d.command_seq, 1);
    assert_eq!(d.envelopes.len(), 1);
    assert_eq!(d.envelopes[0].event_seq, 1);
    assert_eq!(d.envelopes[0].command_seq, 1);
    assert!(d.envelopes[0].timestamp >= before);
    assert!(engine.handle(new_order("a", Side::Buy, 1.0)).is_none());
    let d = engine.handle(cancel("b")).unwrap();
    assert_eq!(d.command_seq, 2);
    assert!(d.envelopes.is_empty());
    let d = engine.handle(new_order("c", Side::Sell, 2.0)).unwrap();
    assert_eq!(d.command_seq, 3);
    assert_eq!(d.envelopes[0].event_seq, 2);
    assert_eq!(engine.sequencer.command_seq, 3);
    assert_eq!(engine.sequencer.event_seq, 2);
    assert_eq!(engine.sequencer.trade_seq, 0);
}

#[test]
fn replay_leaves_the_book_as_it_was() {
    let mut m = MatchingEngine::new();
    m.process(1, new_order("a", Side::Buy, 3.0));
    Replayer::replay(&mut m, vec!["CMD|2|NewOrder(..)".into(), "EVT|1|x".into(), "".into()]);
    assert_eq!(m.book.bids.len(), 1);
    assert!(m.book.asks.is_empty());
}

#[test]
fn bus_kinds_and_small_constructors() {
    assert_eq!(event_bus_kind(&"nats".to_string()), Some(EventBusKind::Nats));
    assert_eq!(event_bus_kind(&"kafka".to_string()), Some(EventBusKind::Kafka));
    assert_eq!(event_bus_kind(&"redis".to_string()), None);
    let l = Loader::new("snap.bin", "wal.log");
    assert_eq!(l.snapshot_path, "snap.bin");
    assert_eq!(l.wal_path, "wal.log");
    let m = Manifest::new("data/wal.log");
    assert!(m.current_snapshot.is_none());
    assert_eq!(m.wal_path, "data/wal.log");
}

#[test]
fn accepted_command_is_numbered_before_it_is_applied() {
    let mut engine = Engine::new();
    let cmd = new_order("c1", Side::Sell, 101.0);

    let seq = engine.accept(&cmd);
    assert_eq!(seq, Some(1));
    assert_eq!(engine.sequencer.command_seq, 1);
    assert_eq!(engine.sequencer.event_seq, 0);
    assert!(engine.matching.book.asks.is_empty());

    let envelopes = engine.apply(1, cmd.clone());
    assert_eq!(envelopes.len(), 1);
    assert_eq!(envelopes[0].event_seq, 1);
    assert_eq!(envelopes[0].command_seq, 1);
    assert!(matches!(envelopes[0].event, Event::OrderAccepted(_)));
    assert_eq!(engine.matching.book.asks.len(), 1);

    assert_eq!(engine.accept(&cmd), None);
    assert_eq!(engine.sequencer.command_seq, 1);

    let envelopes = engine.apply(2, cancel("c2"));
    assert!(envelopes.is_empty());
    assert_eq!(engine.sequencer.event_seq, 1);
}

#[test]
fn level_key_order_agrees_with_ordered_float() {
    assert_agrees_with_ordered_float(&[
        f64::NEG_INFINITY,
        f64::MIN,
        -1e300,
        -2.5,
        -1.0,
        -f64::MIN_POSITIVE,
        -5e-324,
        -0.0,
        0.0,
        5e-324,
        f64::MIN_POSITIVE,
        1.0,
        1.5,
        2.5,
        1e300,
        f64::MAX,
        f64::INFINITY,
        f64::NAN,
        -f64::NAN,
        f64::from_bits(0x7ff0_0000_0000_0001),
        f64::from_bits(0xfff8_0000_0000_0123),
    ]);
}

fn assert_agrees_with_ordered_float(values: &[f64]) {
    for &a in values {
        for &b in values {
            let (ka, kb) = (level_key(a.to_bits()), level_key(b.to_bits()));
            let (oa, ob) = (ordered_float::OrderedFloat(a), ordered_float::OrderedFloat(b));
            assert_eq!(ka == kb, oa == ob, "equality of {a:?} and {b:?}");
            assert_eq!(ka < kb, oa < ob, "order of {a:?} and {b:?}");
        }
    }
}
