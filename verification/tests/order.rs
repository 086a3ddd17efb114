use chrono::Utc;
use match_core::engine::order::{Mode, Order, Side};
use uuid::Uuid;

#[test]
fn test_order_creation() {
    let owner = Uuid::new_v4().as_u128();
    let amount: u64 = 100;
    let price = 50;
    let side = Side::Ask;
    let execution = Mode::Limit;

    let order = Order::new(owner.clone(), amount, price, side.clone(), execution.clone());

    assert_eq!(order.owner, owner);
    assert_eq!(order.quantity, amount);
    assert_eq!(order.price, price);
    assert_eq!(order.executed, 0);
    assert_eq!(order.side, side);
    assert_eq!(order.mode, execution);

    assert!(Uuid::parse_str(&Uuid::from_u128(order.id).to_string()).is_ok());

    let now = Utc::now().timestamp_millis();
    assert!((now - order.timestamp).abs() < 1000);

    assert_eq!(order.is_complete(), false);
    assert_eq!(order.get_pending(), amount);
}

#[test]
fn test_order_execution() {
    let owner = Uuid::new_v4().as_u128();
    let amount = 100;
    let price = 50;
    let side = Side::Ask;
    let execution = Mode::Limit;

    let mut order = Order::new(owner.clone(), amount, price, side.clone(), execution.clone());

    assert_eq!(order.is_complete(), false);
    assert_eq!(order.get_pending(), amount);

    let sustract = 10;
    let remainder = order.execute(amount - sustract);

    assert_eq!(order.is_complete(), false);
    assert_eq!(order.get_pending(), sustract);
    assert_eq!(remainder, 0);
}

#[test]
fn test_order_execution_with_remainder() {
    let owner = Uuid::new_v4().as_u128();
    let amount = 100;
    let price = 50;
    let side = Side::Ask;
    let execution = Mode::Limit;

    let mut order = Order::new(owner.clone(), amount, price, side.clone(), execution.clone());

    assert_eq!(order.is_complete(), false);
    assert_eq!(order.get_pending(), amount);

    let sustract = 110;
    let remainder = order.execute(sustract);

    assert_eq!(order.is_complete(), true);
    assert_eq!(order.get_pending(), 0);
    assert_eq!(remainder, 10);
}

#[test]
fn execute_exactly_pending_completes_without_remainder() {
    let mut order = Order::new(1, 40, 7, Side::Bid, Mode::Market);
    assert_eq!(order.execute(15), 0);
    assert_eq!(order.executed, 15);
    assert_eq!(order.execute(25), 0);
    assert!(order.is_complete());
    assert_eq!(order.execute(5), 5);
    assert_eq!(order.executed, 40);
}

#[test]
fn new_orders_get_distinct_version_four_ids() {
    let a = Order::new(1, 1, 1, Side::Bid, Mode::Limit);
    let b = Order::new(1, 1, 1, Side::Bid, Mode::Limit);
    assert_ne!(a.id, b.id);
    assert_eq!((a.id >> 76) & 0xf, 4);
    assert_eq!((a.id >> 62) & 0x3, 2);
    assert_eq!(Uuid::from_u128(a.id).get_version_num(), 4);
}
