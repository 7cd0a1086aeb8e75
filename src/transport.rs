use vstd::prelude::*;

use crate::report::{zero_report_spec, KeyboardReport};

verus! {

/// What a transport's sender loop does at one turn.
#[derive(Debug, Clone, Copy)]
pub enum SenderAction {
    /// The host has suspended the link: ask it to wake up, send nothing.
    RemoteWakeup,
    /// Send this report, then the all-zero report.
    Transmit(KeyboardReport),
    /// Nothing waits to be sent.
    Idle,
}

/// The reports that go over the link for one queued report: the report
/// itself, then the all-zero report that releases it.
pub open spec fn pulse_spec(r: KeyboardReport) -> Seq<KeyboardReport> {
    seq![r, zero_report_spec()]
}

/// What the link carries for one sender action.
pub open spec fn action_output(a: SenderAction) -> Seq<KeyboardReport> {
    match a {
        SenderAction::Transmit(r) => pulse_spec(r),
        _ => seq![],
    }
}

/// What the link carries for a run of sender actions, in order.
pub open spec fn link_output(actions: Seq<SenderAction>) -> Seq<KeyboardReport>
    decreases actions.len(),
{
    if actions.len() == 0 {
        seq![]
    } else {
        action_output(actions[0]) + link_output(actions.drop_first())
    }
}

/// Every non-zero report in `s` is followed at once by the all-zero report.
pub open spec fn released_after_each(s: Seq<KeyboardReport>) -> bool {
    forall|i: int|
        0 <= i < s.len() && !(#[trigger] s[i]).is_zero_spec() ==> i + 1 < s.len() && s[i + 1]
            == zero_report_spec()
}

/// The reports to write for one queued report: the report, then the
/// all-zero report.
pub fn pulse(r: KeyboardReport) -> (out: [KeyboardReport; 2])
    ensures
        out@ == pulse_spec(r),
{
    let out = [r, KeyboardReport::zero()];
    assert(out@ =~= pulse_spec(r));
    out
}

/// The reports that a sender action puts on the link, in order.
pub fn action_reports(a: &SenderAction) -> (out: Vec<KeyboardReport>)
    ensures
        out@ == action_output(*a),
{
    match a {
        SenderAction::Transmit(r) => {
            let out = vec![*r, KeyboardReport::zero()];
            assert(out@ =~= pulse_spec(*r));
            out
        },
        _ => {
            let out: Vec<KeyboardReport> = Vec::new();
            assert(out@ =~= Seq::<KeyboardReport>::empty());
            out
        },
    }
}

/// Down/up pulses: whatever a sender does, each non-zero report on the link
/// is followed by the all-zero report before anything else, so no two
/// transmissions in a row both hold a key down.
pub proof fn pulse_law(actions: Seq<SenderAction>)
    ensures
        released_after_each(link_output(actions)),
        forall|i: int|
            0 <= i < link_output(actions).len() - 1 ==> (#[trigger] link_output(actions)[i]).is_zero_spec()
                || link_output(actions)[i + 1].is_zero_spec(),
    decreases actions.len(),
{
    let z = zero_report_spec();
    assert(z.is_zero_spec());
    if actions.len() > 0 {
        pulse_law(actions.drop_first());
        let head = action_output(actions[0]);
        let rest = link_output(actions.drop_first());
        let s = link_output(actions);
        assert(s == head + rest);
        assert forall|i: int| 0 <= i < s.len() && !(#[trigger] s[i]).is_zero_spec() implies i + 1
            < s.len() && s[i + 1] == z by {
            if i >= head.len() {
                assert(s[i] == rest[i - head.len()]);
                assert(s[i + 1] == rest[i + 1 - head.len()]);
            }
        }
        assert forall|i: int| 0 <= i < s.len() - 1 implies (#[trigger] s[i]).is_zero_spec()
            || s[i + 1].is_zero_spec() by {
            if i >= head.len() {
                assert(s[i] == rest[i - head.len()]);
                assert(s[i + 1] == rest[i + 1 - head.len()]);
            } else if i + 1 == head.len() {
                assert(s[i] == z);
            }
        }
    } else {
        assert(link_output(actions) =~= Seq::<KeyboardReport>::empty());
    }
}

} // verus!
