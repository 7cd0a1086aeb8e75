use keyboard_fw::queue::{ReportQueue, QUEUE_CAPACITY};
use keyboard_fw::report::KeyboardReport;

#[test]
fn queue_holds_at_most_four() {
    let mut q = ReportQueue::new();
    assert_eq!(QUEUE_CAPACITY, 4);
    for code in 1..=4u8 {
        assert!(q.try_send(KeyboardReport::key(code)).is_ok());
    }
    assert!(q.is_full());
    assert_eq!(q.len(), 4);
    let fifth = KeyboardReport::key(5);
    assert_eq!(q.try_send(fifth), Err(fifth));
    assert_eq!(q.len(), 4);
    assert_eq!(q.try_receive(), Some(KeyboardReport::key(1)));
    assert!(q.try_send(fifth).is_ok());
    assert_eq!(q.len(), 4);
}

#[test]
fn queue_is_first_in_first_out() {
    let mut q = ReportQueue::new();
    assert_eq!(q.try_receive(), None);
    for code in [7u8, 3, 9] {
        q.try_send(KeyboardReport::key(code)).unwrap();
    }
    assert_eq!(q.try_receive(), Some(KeyboardReport::key(7)));
    assert_eq!(q.try_receive(), Some(KeyboardReport::key(3)));
    assert_eq!(q.try_receive(), Some(KeyboardReport::key(9)));
    assert_eq!(q.try_receive(), None);
    assert_eq!(q.len(), 0);
    assert!(!q.is_full());
}
