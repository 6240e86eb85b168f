use daedalus_caps::irq::pending::PendingInterrupts;

#[test]
fn new_tracker_has_nothing_pending() {
    let tracker = PendingInterrupts::new(4);
    assert!(!tracker.pending_any());
    assert_eq!(tracker.slot_count(), 4);
}

#[test]
fn drain_gives_back_recorded_interrupts_in_order() {
    let mut tracker = PendingInterrupts::new(4);
    tracker.record_pending_interrupt(40);
    assert!(tracker.pending_any());
    tracker.record_pending_interrupt(33);
    tracker.record_pending_interrupt(57);
    let mut buf = vec![7u32; 5];
    let drained = tracker.drain_pending_into_buf(&mut buf);
    assert_eq!(drained, 3);
    assert_eq!(buf, vec![40, 33, 57, 7, 7]);
    assert!(!tracker.pending_any());
}

#[test]
fn drain_of_empty_tracker() {
    let mut tracker = PendingInterrupts::new(2);
    let mut buf = vec![1u32, 2];
    assert_eq!(tracker.drain_pending_into_buf(&mut buf), 0);
    assert_eq!(buf, vec![1, 2]);
}

#[test]
fn tracker_refills_after_drain() {
    let mut tracker = PendingInterrupts::new(1);
    let mut buf = vec![0u32; 1];
    tracker.record_pending_interrupt(20);
    assert_eq!(tracker.drain_pending_into_buf(&mut buf), 1);
    tracker.record_pending_interrupt(21);
    assert_eq!(tracker.drain_pending_into_buf(&mut buf), 1);
    assert_eq!(buf, vec![21]);
}
