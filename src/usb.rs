use vstd::prelude::*;

use crate::queue::ReportQueue;
use crate::report::KeyboardReport;
use crate::transport::{action_output, action_reports, link_output, pulse_spec, SenderAction};

verus! {

/// Lifecycle state of the USB device, as the host drives it.
#[derive(Debug, Clone, Copy, PartialEq, Eq, Structural)]
pub enum UsbState {
    Disabled,
    Enabled,
    Addressed,
    Configured,
}

/// Keeps the device's lifecycle state, whether the host has configured it,
/// and whether the host has suspended the link (the suspend flag that the
/// sender loop reads).
pub struct MyDeviceHandler {
    pub state: UsbState,
    pub configured: bool,
    pub suspended: bool,
}

impl MyDeviceHandler {
    /// A handler for a device that the host has not enabled yet.
    pub fn new() -> (r: MyDeviceHandler)
        ensures
            r.state == UsbState::Disabled,
            !r.configured,
            !r.suspended,
    {
        MyDeviceHandler { state: UsbState::Disabled, configured: false, suspended: false }
    }

    /// The device was enabled or disabled: it is no longer configured nor
    /// suspended.
    pub fn enabled(&mut self, enabled: bool)
        ensures
            final(self).state == (if enabled { UsbState::Enabled } else { UsbState::Disabled }),
            !final(self).configured,
            !final(self).suspended,
    {
        self.configured = false;
        self.suspended = false;
        self.state = if enabled { UsbState::Enabled } else { UsbState::Disabled };
    }

    /// A bus reset: the device is back to its default state, unconfigured.
    pub fn reset(&mut self)
        ensures
            final(self).state == UsbState::Enabled,
            !final(self).configured,
            final(self).suspended == old(self).suspended,
    {
        self.configured = false;
        self.state = UsbState::Enabled;
    }

    /// The host assigned an address: the device is addressed, unconfigured.
    pub fn addressed(&mut self, addr: u8)
        ensures
            final(self).state == UsbState::Addressed,
            !final(self).configured,
            final(self).suspended == old(self).suspended,
    {
        self.configured = false;
        self.state = UsbState::Addressed;
    }

    /// The host set or cleared the device's configuration.
    pub fn configured(&mut self, configured: bool)
        ensures
            final(self).configured == configured,
            final(self).state == (if configured { UsbState::Configured } else { UsbState::Addressed }),
            final(self).suspended == old(self).suspended,
    {
        self.configured = configured;
        self.state = if configured { UsbState::Configured } else { UsbState::Addressed };
    }

    /// The host suspended or resumed the link; nothing else changes.
    pub fn suspended(&mut self, suspended: bool)
        ensures
            final(self).suspended == suspended,
            final(self).state == old(self).state,
            final(self).configured == old(self).configured,
    {
        self.suspended = suspended;
    }
}

/// How a turn of the USB sender loop starts.
#[derive(Debug, Clone, Copy, PartialEq, Eq, Structural)]
pub enum SenderDecision {
    /// The link is suspended: ask the host to wake up and transmit nothing.
    RemoteWakeup,
    /// The link is up: take the next report from the queue.
    Receive,
}

/// How a turn of the USB sender loop starts, given the suspend flag.
pub fn usb_sender_decide(suspended: bool) -> (d: SenderDecision)
    ensures
        d == (if suspended { SenderDecision::RemoteWakeup } else { SenderDecision::Receive }),
{
    if suspended {
        SenderDecision::RemoteWakeup
    } else {
        SenderDecision::Receive
    }
}

/// One turn of the USB sender loop on the suspend flag and the queue.
pub open spec fn usb_step_spec(suspended: bool, q: Seq<KeyboardReport>) -> (
    SenderAction,
    Seq<KeyboardReport>,
) {
    if suspended {
        (SenderAction::RemoteWakeup, q)
    } else if q.len() == 0 {
        (SenderAction::Idle, q)
    } else {
        (SenderAction::Transmit(q[0]), q.drop_first())
    }
}

/// Turns of the USB sender loop, one per suspend flag in `flags`: the
/// actions taken and the queue left.
pub open spec fn usb_run_spec(flags: Seq<bool>, q: Seq<KeyboardReport>) -> (
    Seq<SenderAction>,
    Seq<KeyboardReport>,
)
    decreases flags.len(),
{
    if flags.len() == 0 {
        (seq![], q)
    } else {
        let (a, q1) = usb_step_spec(flags[0], q);
        let (rest, q2) = usb_run_spec(flags.drop_first(), q1);
        (seq![a] + rest, q2)
    }
}

/// One turn of the USB sender loop: while the host has suspended the link
/// it asks for a remote wakeup and leaves the queue alone; otherwise it
/// takes the oldest report, which goes out as a down/up pulse.
pub fn usb_sender_step(suspended: bool, queue: &mut ReportQueue) -> (a: SenderAction)
    requires
        old(queue).wf(),
    ensures
        final(queue).wf(),
        (a, final(queue)@) == usb_step_spec(suspended, old(queue)@),
{
    match usb_sender_decide(suspended) {
        SenderDecision::RemoteWakeup => SenderAction::RemoteWakeup,
        SenderDecision::Receive => match queue.try_receive() {
            Some(r) => SenderAction::Transmit(r),
            None => SenderAction::Idle,
        },
    }
}

/// `n` turns during which the suspend flag is set.
pub open spec fn suspended_for(n: nat) -> Seq<bool> {
    Seq::new(n, |i: int| true)
}

/// While the suspend flag stays set, the sender only asks for wakeups and
/// every pending report stays queued, in order; the first turn after the
/// flag clears sends the oldest of them.
pub proof fn suspend_defers_delivery(q: Seq<KeyboardReport>, n: nat)
    ensures
        usb_run_spec(suspended_for(n), q).1 == q,
        forall|i: int|
            0 <= i < n ==> #[trigger] usb_run_spec(suspended_for(n), q).0[i]
                is RemoteWakeup,
        usb_run_spec(suspended_for(n), q).0.len() == n,
        q.len() > 0 ==> usb_step_spec(false, q) == (SenderAction::Transmit(q[0]), q.drop_first()),
    decreases n,
{
    let flags = suspended_for(n);
    if n > 0 {
        let rest = suspended_for((n - 1) as nat);
        assert(flags.drop_first() =~= rest);
        suspend_defers_delivery(q, (n - 1) as nat);
        let r = usb_run_spec(rest, q);
        assert(usb_run_spec(flags, q).0 == seq![SenderAction::RemoteWakeup] + r.0);
        assert forall|i: int| 0 <= i < n implies #[trigger] usb_run_spec(flags, q).0[i]
            is RemoteWakeup by {
            if i > 0 {
                assert(usb_run_spec(flags, q).0[i] == r.0[i - 1]);
            }
        }
    }
}

/// `n` turns during which the suspend flag is clear.
pub open spec fn awake_for(n: nat) -> Seq<bool> {
    Seq::new(n, |i: int| false)
}

/// What the link carries when each report of `q` goes out as a down/up
/// pulse, oldest first.
pub open spec fn pulses(q: Seq<KeyboardReport>) -> Seq<KeyboardReport>
    decreases q.len(),
{
    if q.len() == 0 {
        seq![]
    } else {
        pulse_spec(q[0]) + pulses(q.drop_first())
    }
}

proof fn lemma_link_output_cons(a: SenderAction, rest: Seq<SenderAction>)
    ensures
        link_output(seq![a] + rest) == action_output(a) + link_output(rest),
{
    assert((seq![a] + rest).drop_first() =~= rest);
    assert((seq![a] + rest)[0] == a);
}

proof fn lemma_run_cons(b: bool, rest: Seq<bool>, q: Seq<KeyboardReport>)
    ensures
        usb_run_spec(seq![b] + rest, q) == ({
            let (a, q1) = usb_step_spec(b, q);
            let (more, q2) = usb_run_spec(rest, q1);
            (seq![a] + more, q2)
        }),
{
    assert((seq![b] + rest).drop_first() =~= rest);
    assert((seq![b] + rest)[0] == b);
}

proof fn lemma_awake_run(q: Seq<KeyboardReport>, n: nat)
    requires
        n >= q.len(),
    ensures
        link_output(usb_run_spec(awake_for(n), q).0) == pulses(q),
        usb_run_spec(awake_for(n), q).1.len() == 0,
    decreases n,
{
    if n == 0 {
        assert(awake_for(0) =~= Seq::<bool>::empty());
        assert(link_output(Seq::<SenderAction>::empty()) =~= Seq::<KeyboardReport>::empty());
    } else {
        let rest = awake_for((n - 1) as nat);
        assert(awake_for(n) =~= seq![false] + rest);
        lemma_run_cons(false, rest, q);
        let (a, q1) = usb_step_spec(false, q);
        lemma_awake_run(q1, (n - 1) as nat);
        lemma_link_output_cons(a, usb_run_spec(rest, q1).0);
        if q.len() == 0 {
            assert(pulses(q1) =~= Seq::<KeyboardReport>::empty());
            assert(link_output(usb_run_spec(awake_for(n), q).0) =~= pulses(q));
        }
    }
}

proof fn lemma_suspended_prefix(s: nat, rest: Seq<bool>, q: Seq<KeyboardReport>)
    ensures
        link_output(usb_run_spec(suspended_for(s) + rest, q).0) == link_output(usb_run_spec(rest, q).0),
        usb_run_spec(suspended_for(s) + rest, q).1 == usb_run_spec(rest, q).1,
        usb_run_spec(suspended_for(s) + rest, q).0.len() == s + usb_run_spec(rest, q).0.len(),
        forall|i: int| 0 <= i < s ==> #[trigger] usb_run_spec(suspended_for(s) + rest, q).0[i] is RemoteWakeup,
    decreases s,
{
    if s == 0 {
        assert(suspended_for(0) + rest =~= rest);
    } else {
        let tail = suspended_for((s - 1) as nat) + rest;
        assert(suspended_for(s) + rest =~= seq![true] + tail);
        lemma_run_cons(true, tail, q);
        lemma_suspended_prefix((s - 1) as nat, rest, q);
        let more = usb_run_spec(tail, q).0;
        lemma_link_output_cons(SenderAction::RemoteWakeup, more);
        assert(action_output(SenderAction::RemoteWakeup) =~= Seq::<KeyboardReport>::empty());
        assert(Seq::<KeyboardReport>::empty() + link_output(more) =~= link_output(more));
        assert forall|i: int| 0 <= i < s implies #[trigger] usb_run_spec(suspended_for(s) + rest, q).0[i]
            is RemoteWakeup by {
            if i > 0 {
                assert(usb_run_spec(suspended_for(s) + rest, q).0[i] == more[i - 1]);
            }
        }
    }
}

/// Delivery across a suspend: reports pending while the host keeps the link
/// suspended for `s` turns stay queued, each of those turns only asks for a
/// wakeup and puts nothing on the link; once the flag clears, `n` turns with
/// `n` at least the number pending send all of them, oldest first, each as
/// a down/up pulse, and nothing else. None is lost, repeated or reordered.
pub proof fn delivery_after_resume(q: Seq<KeyboardReport>, s: nat, n: nat)
    requires
        n >= q.len(),
    ensures
        link_output(usb_run_spec(suspended_for(s) + awake_for(n), q).0) == pulses(q),
        usb_run_spec(suspended_for(s) + awake_for(n), q).1.len() == 0,
        forall|i: int| 0 <= i < s ==> #[trigger] usb_run_spec(suspended_for(s) + awake_for(n), q).0[i]
            is RemoteWakeup,
{
    lemma_suspended_prefix(s, awake_for(n), q);
    lemma_awake_run(q, n);
}

/// Runs the USB sender loop for one turn per flag of `flags` (true while the
/// link is suspended) and returns what it writes to the link, in order.
pub fn usb_sender_run(flags: &Vec<bool>, queue: &mut ReportQueue) -> (out: Vec<KeyboardReport>)
    requires
        old(queue).wf(),
    ensures
        final(queue).wf(),
        out@ == link_output(usb_run_spec(flags@, old(queue)@).0),
        final(queue)@ == usb_run_spec(flags@, old(queue)@).1,
{
    let ghost q0 = queue@;
    let mut out: Vec<KeyboardReport> = Vec::new();
    let mut t: usize = 0;
    assert(flags@.skip(0) =~= flags@);
    assert(out@ + link_output(usb_run_spec(flags@, q0).0) =~= link_output(usb_run_spec(flags@, q0).0));
    while t < flags.len()
        invariant
            0 <= t <= flags@.len(),
            queue.wf(),
            link_output(usb_run_spec(flags@, q0).0) == out@ + link_output(
                usb_run_spec(flags@.skip(t as int), queue@).0,
            ),
            usb_run_spec(flags@, q0).1 == usb_run_spec(flags@.skip(t as int), queue@).1,
        decreases flags@.len() - t,
    {
        let ghost rest = flags@.skip(t as int);
        let ghost q_before = queue@;
        proof {
            assert(rest =~= seq![flags@[t as int]] + flags@.skip(t + 1));
            lemma_run_cons(flags@[t as int], flags@.skip(t + 1), q_before);
        }
        let a = usb_sender_step(flags[t], queue);
        let mut writes = action_reports(&a);
        proof {
            lemma_link_output_cons(a, usb_run_spec(flags@.skip(t + 1), queue@).0);
        }
        let ghost out_before = out@;
        out.append(&mut writes);
        assert(out_before + (action_output(a) + link_output(usb_run_spec(flags@.skip(t + 1), queue@).0))
            =~= out@ + link_output(usb_run_spec(flags@.skip(t + 1), queue@).0));
        t = t + 1;
    }
    assert(flags@.skip(t as int) =~= Seq::<bool>::empty());
    assert(out@ + Seq::<KeyboardReport>::empty() =~= out@);
    out
}

} // verus!
