//! When heartbeats are sent, and when sending them ends.
use vstd::prelude::*;

use crate::center::client_conn;

verus! {

/// How long to wait between two heartbeats, in seconds.
pub const HEARTBEAT_INTERVAL_SECS: u64 = 5;

/// Sends heartbeats until one of them fails or it is told to stop.
#[derive(Debug, Clone, Copy)]
pub struct HeartbeatService {
    reports_failure: bool,
    running: bool,
}

/// What happened.
pub enum HeartbeatEvent {
    /// The wait for the next heartbeat is over.
    Waited,
    /// The heartbeat was sent.
    Sent,
    /// The heartbeat could not be sent.
    Failed,
    /// The service was told to stop while it waited.
    Cancelled,
}

/// What to do next.
#[derive(Debug, Clone, Copy, PartialEq, Eq, Structural)]
pub enum HeartbeatAction {
    /// Wait for the interval, or until the service is told to stop.
    Wait,
    /// Send a heartbeat.
    Send,
    /// Report the failure, then stop.
    ReportAndStop,
    /// Stop.
    Stop,
}

/// What follows an event, given whether heartbeats go on and whether a failure is reported:
/// whether they go on then, and what to do.
pub open spec fn beat(running: bool, reports_failure: bool, event: HeartbeatEvent) -> (
    bool,
    HeartbeatAction,
) {
    if !running {
        (false, HeartbeatAction::Stop)
    } else {
        match event {
            HeartbeatEvent::Waited => (true, HeartbeatAction::Send),
            HeartbeatEvent::Sent => (true, HeartbeatAction::Wait),
            HeartbeatEvent::Failed => (
                false,
                if reports_failure {
                    HeartbeatAction::ReportAndStop
                } else {
                    HeartbeatAction::Stop
                },
            ),
            HeartbeatEvent::Cancelled => (false, HeartbeatAction::Stop),
        }
    }
}

impl HeartbeatService {
    /// Whether a failure is reported.
    pub closed spec fn reports_failure(&self) -> bool {
        self.reports_failure
    }

    /// Whether heartbeats go on.
    pub closed spec fn running(&self) -> bool {
        self.running
    }

    /// A service that is about to wait for its first heartbeat.
    pub fn new(reports_failure: bool) -> (service: Self)
        ensures
            service.reports_failure() == reports_failure,
            service.running(),
    {
        HeartbeatService { reports_failure, running: true }
    }

    /// What follows an event. After a failure, which is reported once, and after a
    /// cancellation nothing more is sent.
    pub fn step(&mut self, event: HeartbeatEvent) -> (action: HeartbeatAction)
        ensures
            final(self).reports_failure() == old(self).reports_failure(),
            (final(self).running(), action) == beat(
                old(self).running(),
                old(self).reports_failure(),
                event,
            ),
    {
        if !self.running {
            return HeartbeatAction::Stop;
        }
        match event {
            HeartbeatEvent::Waited => HeartbeatAction::Send,
            HeartbeatEvent::Sent => HeartbeatAction::Wait,
            HeartbeatEvent::Failed => {
                self.running = false;
                if self.reports_failure {
                    HeartbeatAction::ReportAndStop
                } else {
                    HeartbeatAction::Stop
                }
            },
            HeartbeatEvent::Cancelled => {
                self.running = false;
                HeartbeatAction::Stop
            },
        }
    }
}

// ---------------------------------------------------------------------------------------
// Laws
// ---------------------------------------------------------------------------------------
/// A heartbeat is sent after every wait and waited for after every one that was sent. Heartbeats
/// go on until one fails or they are cancelled; a failure is reported where it is to be, a
/// cancellation never.
pub proof fn heartbeats_go_on(reports_failure: bool, event: HeartbeatEvent)
    ensures
        ({
            let (running, action) = beat(true, reports_failure, event);
            &&& action is Send <==> event is Waited
            &&& action is Wait <==> event is Sent
            &&& running <==> event is Waited || event is Sent
            &&& action is ReportAndStop <==> event is Failed && reports_failure
            &&& action is Stop <==> event is Cancelled || event is Failed && !reports_failure
        }),
{
}

/// Once heartbeats have ended, they stay so, and nothing is sent or reported any more.
pub proof fn ended_heartbeats_stay_ended(reports_failure: bool, event: HeartbeatEvent)
    ensures
        ({
            let (running, action) = beat(false, reports_failure, event);
            &&& !running
            &&& action is Stop
        }),
{
}

/// A guest sends three heartbeats in the time after which the center takes it for silent, so that
/// one that is late does no harm.
pub proof fn heartbeats_come_in_time()
    ensures
        3 * HEARTBEAT_INTERVAL_SECS * 1_000_000_000 == client_conn::HEARTBEAT_TIMEOUT_NANOS,
        HEARTBEAT_INTERVAL_SECS == client_conn::HEARTBEAT_CHECK_SECS,
{
}

} // verus!
