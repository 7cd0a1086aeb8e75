use keyboard_fw::queue::ReportQueue;
use keyboard_fw::report::KeyboardReport;
use keyboard_fw::transport::{action_reports, pulse, SenderAction};
use keyboard_fw::usb::{usb_sender_decide, usb_sender_run, usb_sender_step, MyDeviceHandler, SenderDecision, UsbState};

#[test]
fn pulse_is_report_then_zero() {
    let r = KeyboardReport::key(0x1d);
    let p = pulse(r);
    assert_eq!(p[0], r);
    assert_eq!(p[1], KeyboardReport::zero());
    assert!(!p[0].is_zero());
    assert!(p[1].is_zero());
}

#[test]
fn link_output_alternates_down_and_up() {
    let mut q = ReportQueue::new();
    for code in [4u8, 5, 6] {
        q.try_send(KeyboardReport::key(code)).unwrap();
    }
    let mut wire = Vec::new();
    for suspended in [false, true, false, false, false] {
        let a = usb_sender_step(suspended, &mut q);
        wire.extend(action_reports(&a));
    }
    assert_eq!(wire.len(), 6);
    for i in 0..wire.len() {
        if !wire[i].is_zero() {
            assert!(wire[i + 1].is_zero());
        }
    }
    assert_eq!(wire[0], KeyboardReport::key(4));
    assert_eq!(wire[2], KeyboardReport::key(5));
    assert_eq!(wire[4], KeyboardReport::key(6));
}

#[test]
fn suspended_sender_asks_for_wakeup_and_keeps_queue() {
    let mut q = ReportQueue::new();
    q.try_send(KeyboardReport::key(0x14)).unwrap();
    q.try_send(KeyboardReport::key(0x1a)).unwrap();
    let mut h = MyDeviceHandler::new();
    h.enabled(true);
    h.suspended(true);
    for _ in 0..3 {
        let a = usb_sender_step(h.suspended, &mut q);
        assert!(matches!(a, SenderAction::RemoteWakeup));
        assert!(action_reports(&a).is_empty());
        assert_eq!(q.len(), 2);
    }
    h.suspended(false);
    match usb_sender_step(h.suspended, &mut q) {
        SenderAction::Transmit(r) => assert_eq!(r, KeyboardReport::key(0x14)),
        other => panic!("expected a transmission, got {:?}", other),
    }
    assert_eq!(q.len(), 1);
}

#[test]
fn idle_sender_sends_nothing() {
    let mut q = ReportQueue::new();
    let a = usb_sender_step(false, &mut q);
    assert!(matches!(a, SenderAction::Idle));
    assert!(action_reports(&a).is_empty());
}

#[test]
fn device_lifecycle_callbacks() {
    let mut h = MyDeviceHandler::new();
    assert_eq!(h.state, UsbState::Disabled);
    h.enabled(true);
    assert_eq!(h.state, UsbState::Enabled);
    h.addressed(5);
    assert_eq!(h.state, UsbState::Addressed);
    assert!(!h.configured);
    h.configured(true);
    assert_eq!(h.state, UsbState::Configured);
    assert!(h.configured);
    h.suspended(true);
    assert!(h.suspended);
    assert!(h.configured);
    h.suspended(false);
    assert!(!h.suspended);
    h.reset();
    assert!(!h.configured);
    assert_eq!(h.state, UsbState::Enabled);
    h.configured(true);
    h.suspended(true);
    h.enabled(false);
    assert_eq!(h.state, UsbState::Disabled);
    assert!(!h.configured);
    assert!(!h.suspended);
}

#[test]
fn usb_report_carries_keyboard_id() {
    let r = KeyboardReport::key(0x14);
    assert_eq!(r.to_bytes_with_id(1), [1, 0, 0, 0x14, 0, 0, 0, 0, 0]);
    assert_eq!(KeyboardReport::zero().to_bytes(), [0; 8]);
}

#[test]
fn sender_run_delivers_pending_reports_after_resume() {
    let mut q = ReportQueue::new();
    q.try_send(KeyboardReport::key(0x14)).unwrap();
    q.try_send(KeyboardReport::key(0x1a)).unwrap();
    let suspended_only = usb_sender_run(&vec![true, true, true], &mut q);
    assert!(suspended_only.is_empty());
    assert_eq!(q.len(), 2);
    let out = usb_sender_run(&vec![false, false, false], &mut q);
    let z = KeyboardReport::zero();
    assert_eq!(out, vec![KeyboardReport::key(0x14), z, KeyboardReport::key(0x1a), z]);
    assert_eq!(q.len(), 0);
}

#[test]
fn sender_decision_follows_suspend_flag() {
    assert_eq!(usb_sender_decide(true), SenderDecision::RemoteWakeup);
    assert_eq!(usb_sender_decide(false), SenderDecision::Receive);
}
