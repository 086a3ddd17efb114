use match_core::kernel::log_writer::{command_line, event_line};
use match_core::recovery::loader::Loader;

#[test]
fn command_line_is_tagged_numbered_and_terminated() {
    let line = command_line(1, "NewOrder(NewOrderCommand { command_id: \"cmd-1\" })");
    assert!(line.starts_with("CMD|1|"));
    assert!(line.contains("NewOrder"));
    assert!(line.ends_with("\n"));
    assert_eq!(command_line(0, "x"), "CMD|0|x\n");
    assert_eq!(command_line(10, ""), "CMD|10|\n");
}

#[test]
fn event_line_is_tagged_numbered_and_terminated() {
    let line = event_line(3, "EventEnvelope { event: OrderAccepted }");
    assert!(line.starts_with("EVT|3|"));
    assert!(line.contains("OrderAccepted"));
    assert!(line.ends_with("\n"));
}

#[test]
fn decimal_numbers_are_exact() {
    assert_eq!(command_line(1234567890, "b"), "CMD|1234567890|b\n");
    assert_eq!(event_line(u64::MAX, "b"), format!("EVT|{}|b\n", u64::MAX));
    assert_eq!(event_line(9, "b"), "EVT|9|b\n");
    assert_eq!(event_line(100, "b"), "EVT|100|b\n");
}

#[test]
fn appended_lines_read_back_in_order() {
    let mut text = command_line(10, "NewOrder(..)");
    text.push_str(&event_line(3, "OrderAccepted(..)"));
    let st = Loader::loaded_state(None, Some(&text));
    assert_eq!(st.wal_entries, vec!["CMD|10|NewOrder(..)", "EVT|3|OrderAccepted(..)"]);
}
