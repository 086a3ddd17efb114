use match_core::kernel::deduplicator::Deduplicator;
use match_core::shared::command::{CancelOrderCommand, Command, NewOrderCommand, Side, TimeInForce, Type};

fn new_order(command_id: &str) -> Command {
    Command::NewOrder(NewOrderCommand {
        command_id: command_id.into(),
        order_id: "1".into(),
        user_id: "u1".into(),
        symbol: "BTC-USD".into(),
        side: Side::Buy,
        order_type: Type::Limit,
        price: 1.0f64.to_bits(),
        quantity: 1.0f64.to_bits(),
        timestamp: 0,
        time_in_force: TimeInForce::GTC,
    })
}

fn cancel_order(command_id: &str) -> Command {
    Command::CancelOrder(CancelOrderCommand {
        command_id: command_id.into(),
        order_id: "1".into(),
        timestamp: 0,
    })
}

#[test]
fn exists_first_time_is_false_then_true_for_same_id() {
    let mut d = Deduplicator::new();
    let cmd = new_order("id-a");

    assert!(!d.already_seen(&cmd));
    assert!(d.already_seen(&cmd));
}

#[test]
fn exists_distinct_ids_are_independent() {
    let mut d = Deduplicator::new();
    let a = new_order("id-a");
    let b = new_order("id-b");

    assert!(!d.already_seen(&a));
    assert!(!d.already_seen(&b));
    assert!(d.already_seen(&a));
    assert!(d.already_seen(&b));
}

#[test]
fn exists_dedupes_by_command_id_across_command_variants() {
    let mut d = Deduplicator::new();
    let new = new_order("same");
    let cancel = cancel_order("same");

    assert!(!d.already_seen(&new));
    assert!(d.already_seen(&cancel));
}
