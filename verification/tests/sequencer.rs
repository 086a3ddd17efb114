use match_core::kernel::sequencer::Sequencer;

#[test]
fn new_starts_at_zero() {
    let s = Sequencer::new();
    assert_eq!(s.command_seq, 0);
    assert_eq!(s.event_seq, 0);
    assert_eq!(s.trade_seq, 0);
}

#[test]
fn next_command_seq_is_monotonic() {
    let mut s = Sequencer::new();
    assert_eq!(s.next_command_seq(), 1);
    assert_eq!(s.next_command_seq(), 2);
    assert_eq!(s.command_seq, 2);
}

#[test]
fn next_event_seq_is_monotonic() {
    let mut s = Sequencer::new();
    assert_eq!(s.next_event_seq(), 1);
    assert_eq!(s.next_event_seq(), 2);
    assert_eq!(s.event_seq, 2);
}

#[test]
fn next_trade_seq_is_monotonic() {
    let mut s = Sequencer::new();
    assert_eq!(s.next_trade_seq(), 1);
    assert_eq!(s.next_trade_seq(), 2);
    assert_eq!(s.trade_seq, 2);
}

#[test]
fn sequences_are_independent() {
    let mut s = Sequencer::new();
    assert_eq!(s.next_command_seq(), 1);
    assert_eq!(s.next_event_seq(), 1);
    assert_eq!(s.next_trade_seq(), 1);
    assert_eq!(s.next_command_seq(), 2);
    assert_eq!(s.event_seq, 1);
    assert_eq!(s.trade_seq, 1);
}

#[test]
fn successive_numbers_strictly_increase() {
    let mut s = Sequencer::new();
    let mut last = 0;
    for _ in 0..100 {
        let n = s.next_event_seq();
        assert!(n > last);
        last = n;
    }
    assert_eq!(s.command_seq, 0);
}
