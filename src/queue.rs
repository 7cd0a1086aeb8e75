use vstd::prelude::*;

use embassy_sync::blocking_mutex::raw::CriticalSectionRawMutex;
use embassy_sync::channel::{Channel, TrySendError};

use crate::report::KeyboardReport;

verus! {

/// How many unread reports the queue holds at most.
pub const QUEUE_CAPACITY: usize = 4;

/// The embassy channel that carries the reports. Verus sees nothing of it
/// but what `channel_reports` and the functions below say.
#[verifier::external_body]
pub struct ReportChannel {
    chan: Channel<CriticalSectionRawMutex, KeyboardReport, 4>,
}

/// The reports waiting in a channel, oldest first.
pub uninterp spec fn channel_reports(c: ReportChannel) -> Seq<KeyboardReport>;

/// Relies on embassy_sync's `Channel::new`: a new channel is empty.
#[verifier::external_body]
fn channel_new() -> (c: ReportChannel)
    ensures
        channel_reports(c).len() == 0,
{
    ReportChannel { chan: Channel::new() }
}

/// Relies on embassy_sync's `Channel::try_send`: a channel holding fewer
/// than its capacity appends the message at the back; a full one hands it
/// back and stays as it was.
#[verifier::external_body]
fn channel_try_send(
    c: &mut ReportChannel,
    m: KeyboardReport,
) -> (r: Result<(), KeyboardReport>)
    ensures
        channel_reports(*old(c)).len() < 4 ==> r is Ok && channel_reports(*final(c))
            == channel_reports(*old(c)).push(m),
        channel_reports(*old(c)).len() >= 4 ==> r is Err && r->Err_0 == m
            && channel_reports(*final(c)) == channel_reports(*old(c)),
{
    match c.chan.try_send(m) {
        Ok(()) => Ok(()),
        Err(TrySendError::Full(m)) => Err(m),
    }
}

/// Relies on embassy_sync's `Channel::try_receive`: the oldest message
/// leaves a channel that holds one; an empty channel stays empty.
#[verifier::external_body]
fn channel_try_receive(c: &mut ReportChannel) -> (r: Option<KeyboardReport>)
    ensures
        channel_reports(*old(c)).len() == 0 ==> r is None && channel_reports(*final(c))
            == channel_reports(*old(c)),
        channel_reports(*old(c)).len() > 0 ==> r == Some(channel_reports(*old(c))[0])
            && channel_reports(*final(c)) == channel_reports(*old(c)).drop_first(),
{
    c.chan.try_receive().ok()
}

/// Relies on embassy_sync's `Channel::len`: the number of waiting messages.
#[verifier::external_body]
fn channel_len(c: &ReportChannel) -> (r: usize)
    ensures
        r == channel_reports(*c).len(),
{
    c.chan.len()
}

/// Bounded first-in first-out queue of reports from the scanner to the
/// transport that sends them.
pub struct ReportQueue {
    chan: ReportChannel,
}

impl View for ReportQueue {
    type V = Seq<KeyboardReport>;

    closed spec fn view(&self) -> Seq<KeyboardReport> {
        channel_reports(self.chan)
    }
}

impl ReportQueue {
    /// The queue never holds more than its capacity.
    pub closed spec fn wf(&self) -> bool {
        channel_reports(self.chan).len() <= QUEUE_CAPACITY
    }

    /// A well-formed queue holds at most four reports.
    pub proof fn lemma_bounded(&self)
        requires
            self.wf(),
        ensures
            self@.len() <= QUEUE_CAPACITY,
    {
    }

    /// An empty queue.
    pub fn new() -> (q: ReportQueue)
        ensures
            q.wf(),
            q@.len() <= QUEUE_CAPACITY,
            q@ == Seq::<KeyboardReport>::empty(),
    {
        ReportQueue { chan: channel_new() }
    }

    /// Appends `report` if fewer than four reports wait; otherwise hands it
    /// back, and the producer has to wait until the consumer takes one.
    pub fn try_send(&mut self, report: KeyboardReport) -> (r: Result<(), KeyboardReport>)
        requires
            old(self).wf(),
        ensures
            final(self).wf(),
            final(self)@.len() <= QUEUE_CAPACITY,
            old(self)@.len() < QUEUE_CAPACITY ==> r is Ok && final(self)@ == old(self)@.push(
                report,
            ),
            old(self)@.len() == QUEUE_CAPACITY ==> r is Err && r->Err_0 == report
                && final(self)@ == old(self)@,
    {
        channel_try_send(&mut self.chan, report)
    }

    /// Takes the oldest report, if any.
    pub fn try_receive(&mut self) -> (r: Option<KeyboardReport>)
        requires
            old(self).wf(),
        ensures
            final(self).wf(),
            final(self)@.len() <= QUEUE_CAPACITY,
            old(self)@.len() == 0 ==> r is None && final(self)@ == old(self)@,
            old(self)@.len() > 0 ==> r == Some(old(self)@[0]) && final(self)@ == old(
                self,
            )@.drop_first(),
    {
        channel_try_receive(&mut self.chan)
    }

    /// Number of reports waiting.
    pub fn len(&self) -> (r: usize)
        requires
            self.wf(),
        ensures
            r == self@.len(),
            r <= QUEUE_CAPACITY,
    {
        channel_len(&self.chan)
    }

    /// Whether a send would have to wait.
    pub fn is_full(&self) -> (r: bool)
        requires
            self.wf(),
        ensures
            r == (self@.len() == QUEUE_CAPACITY),
    {
        channel_len(&self.chan) == QUEUE_CAPACITY
    }
}

} // verus!
