use vstd::prelude::*;
use crate::balancer::BalancedConn;

verus! {

/// The first wait before reconnecting a failed sub-connection, in seconds.
pub const MIN_RETRY_DELAY_SECS: u64 = 5;

/// The longest wait before reconnecting, in seconds.
pub const MAX_RETRY_DELAY_SECS: u64 = 30;

/// Where a sub-connection's worker stands.
#[derive(Clone, Copy, Debug, PartialEq, Eq, Structural)]
pub enum WorkerPhase {
    /// Waiting for a datagram from the sub-connection.
    Receiving,
    /// Handing a received datagram to the shared queue.
    Forwarding,
    /// Waiting before a reconnect.
    Sleeping,
    /// Waiting for a new sub-connection.
    Reconnecting,
    /// Done.
    Stopped,
}

/// What happened to the worker.
#[derive(Clone, Copy, Debug, PartialEq, Eq, Structural)]
pub enum WorkerEvent {
    Cancelled,
    Received,
    ReceiveFailed,
    Forwarded,
    QueueClosed,
    SleepElapsed,
    Reconnected,
    ReconnectFailed,
}

/// What the worker does next.
#[derive(Clone, Copy, Debug, PartialEq, Eq, Structural)]
pub enum WorkerAction {
    /// Receive from the sub-connection.
    Receive,
    /// Put the datagram just received on the shared queue.
    Forward,
    /// Wait this many seconds (unless cancelled).
    Sleep { secs: u64 },
    /// Open a new sub-connection in place of this one (unless cancelled).
    Reconnect,
    /// End the worker.
    Stop,
}

/// The worker that keeps one sub-connection of a balanced connection
/// receiving, and reconnects it with a growing delay when it fails.
pub struct Worker {
    pub index: usize,
    pub retry_delay_secs: u64,
    pub phase: WorkerPhase,
}

/// The retry delay after a failed reconnect: doubled, at most the maximum.
pub open spec fn next_delay(delay: u64) -> u64 {
    if delay * 2 < MAX_RETRY_DELAY_SECS { (delay * 2) as u64 } else { MAX_RETRY_DELAY_SECS }
}

/// The action a worker in `phase` waits on.
pub open spec fn pending_action(phase: WorkerPhase, delay: u64) -> WorkerAction {
    match phase {
        WorkerPhase::Receiving => WorkerAction::Receive,
        WorkerPhase::Forwarding => WorkerAction::Forward,
        WorkerPhase::Sleeping => WorkerAction::Sleep { secs: delay },
        WorkerPhase::Reconnecting => WorkerAction::Reconnect,
        WorkerPhase::Stopped => WorkerAction::Stop,
    }
}

/// The worker's transition: next phase, retry delay and health of its
/// sub-connection (`None`: left as it is), and the action.
pub open spec fn transition(phase: WorkerPhase, delay: u64, event: WorkerEvent) -> (WorkerPhase, u64, Option<bool>, WorkerAction) {
    match (phase, event) {
        (WorkerPhase::Receiving, WorkerEvent::Cancelled)
        | (WorkerPhase::Sleeping, WorkerEvent::Cancelled)
        | (WorkerPhase::Reconnecting, WorkerEvent::Cancelled)
        | (WorkerPhase::Forwarding, WorkerEvent::QueueClosed) => (WorkerPhase::Stopped, delay, None, WorkerAction::Stop),
        (WorkerPhase::Receiving, WorkerEvent::Received) => (WorkerPhase::Forwarding, delay, Some(true), WorkerAction::Forward),
        (WorkerPhase::Receiving, WorkerEvent::ReceiveFailed) => (WorkerPhase::Sleeping, delay, Some(false), WorkerAction::Sleep { secs: delay }),
        (WorkerPhase::Forwarding, WorkerEvent::Forwarded) => (WorkerPhase::Receiving, MIN_RETRY_DELAY_SECS, None, WorkerAction::Receive),
        (WorkerPhase::Sleeping, WorkerEvent::SleepElapsed) => (WorkerPhase::Reconnecting, delay, None, WorkerAction::Reconnect),
        (WorkerPhase::Reconnecting, WorkerEvent::Reconnected) => (WorkerPhase::Receiving, MIN_RETRY_DELAY_SECS, Some(true), WorkerAction::Receive),
        (WorkerPhase::Reconnecting, WorkerEvent::ReconnectFailed) => (WorkerPhase::Receiving, next_delay(delay), None, WorkerAction::Receive),
        _ => (phase, delay, None, pending_action(phase, delay)),
    }
}

impl Worker {
    /// The worker's invariant: its retry delay stays between the bounds.
    pub open spec fn wf(self) -> bool {
        MIN_RETRY_DELAY_SECS <= self.retry_delay_secs <= MAX_RETRY_DELAY_SECS
    }

    /// A worker for sub-connection `index`, about to receive.
    pub fn new(index: usize) -> (res: Worker)
        ensures
            res.wf(),
            res.index == index,
            res.retry_delay_secs == MIN_RETRY_DELAY_SECS,
            res.phase == WorkerPhase::Receiving,
    {
        Worker { index, retry_delay_secs: MIN_RETRY_DELAY_SECS, phase: WorkerPhase::Receiving }
    }

    /// Takes an event: a received datagram marks the sub-connection healthy,
    /// a receive error marks it failed and starts a wait of the retry delay
    /// before reconnecting; a forwarded datagram or a new sub-connection
    /// brings the delay back to its minimum, a failed reconnect doubles it
    /// (up to the maximum) and the worker receives again; cancellation, or a
    /// queue that no longer takes datagrams, stops it. Events that do not
    /// belong to the current phase change nothing.
    pub fn step(&mut self, conn: &mut BalancedConn, event: WorkerEvent) -> (action: WorkerAction)
        requires
            old(self).wf(),
            old(self).index < old(conn).health@.len(),
        ensures
            final(self).wf(),
            final(self).index == old(self).index,
            final(conn).send_index == old(conn).send_index,
            ({
                let (phase, delay, health, act) = transition(old(self).phase, old(self).retry_delay_secs, event);
                &&& final(self).phase == phase
                &&& final(self).retry_delay_secs == delay
                &&& action == act
                &&& final(conn).health@ == match health {
                    Some(h) => old(conn).health@.update(old(self).index as int, h),
                    None => old(conn).health@,
                }
            }),
    {
        match (self.phase, event) {
            (WorkerPhase::Receiving, WorkerEvent::Cancelled)
            | (WorkerPhase::Sleeping, WorkerEvent::Cancelled)
            | (WorkerPhase::Reconnecting, WorkerEvent::Cancelled)
            | (WorkerPhase::Forwarding, WorkerEvent::QueueClosed) => {
                self.phase = WorkerPhase::Stopped;
                WorkerAction::Stop
            },
            (WorkerPhase::Receiving, WorkerEvent::Received) => {
                conn.mark_healthy(self.index);
                self.phase = WorkerPhase::Forwarding;
                WorkerAction::Forward
            },
            (WorkerPhase::Receiving, WorkerEvent::ReceiveFailed) => {
                conn.mark_failed(self.index);
                self.phase = WorkerPhase::Sleeping;
                WorkerAction::Sleep { secs: self.retry_delay_secs }
            },
            (WorkerPhase::Forwarding, WorkerEvent::Forwarded) => {
                self.retry_delay_secs = MIN_RETRY_DELAY_SECS;
                self.phase = WorkerPhase::Receiving;
                WorkerAction::Receive
            },
            (WorkerPhase::Sleeping, WorkerEvent::SleepElapsed) => {
                self.phase = WorkerPhase::Reconnecting;
                WorkerAction::Reconnect
            },
            (WorkerPhase::Reconnecting, WorkerEvent::Reconnected) => {
                conn.mark_healthy(self.index);
                self.retry_delay_secs = MIN_RETRY_DELAY_SECS;
                self.phase = WorkerPhase::Receiving;
                WorkerAction::Receive
            },
            (WorkerPhase::Reconnecting, WorkerEvent::ReconnectFailed) => {
                let doubled = self.retry_delay_secs * 2;
                self.retry_delay_secs = if doubled < MAX_RETRY_DELAY_SECS { doubled } else { MAX_RETRY_DELAY_SECS };
                self.phase = WorkerPhase::Receiving;
                WorkerAction::Receive
            },
            _ => match self.phase {
                WorkerPhase::Receiving => WorkerAction::Receive,
                WorkerPhase::Forwarding => WorkerAction::Forward,
                WorkerPhase::Sleeping => WorkerAction::Sleep { secs: self.retry_delay_secs },
                WorkerPhase::Reconnecting => WorkerAction::Reconnect,
                WorkerPhase::Stopped => WorkerAction::Stop,
            },
        }
    }
}

/// Whatever happens, a worker's retry delay stays between five and thirty
/// seconds.
pub proof fn retry_delay_stays_bounded(phase: WorkerPhase, delay: u64, event: WorkerEvent)
    requires
        MIN_RETRY_DELAY_SECS <= delay <= MAX_RETRY_DELAY_SECS,
    ensures
        MIN_RETRY_DELAY_SECS <= transition(phase, delay, event).1 <= MAX_RETRY_DELAY_SECS,
{
}

/// Cancellation stops a worker that waits on its sub-connection, on a pause
/// or on a reconnect; one that is handing a datagram to the queue finishes
/// that first and stops at its next receive.
pub proof fn cancelled_worker_stops(phase: WorkerPhase, delay: u64)
    ensures
        phase != WorkerPhase::Forwarding ==> transition(phase, delay, WorkerEvent::Cancelled).3 == WorkerAction::Stop,
        phase == WorkerPhase::Forwarding ==> transition(phase, delay, WorkerEvent::Cancelled).0 == WorkerPhase::Forwarding
            && transition(WorkerPhase::Receiving, MIN_RETRY_DELAY_SECS, WorkerEvent::Cancelled).3 == WorkerAction::Stop,
{
}

/// A datagram handed on to the queue shows the sub-connection works: the
/// worker receives again, and its retry delay is back at the minimum,
/// whatever it was.
pub proof fn forwarded_datagram_resets_delay(delay: u64)
    ensures
        transition(WorkerPhase::Forwarding, delay, WorkerEvent::Forwarded)
            == (WorkerPhase::Receiving, MIN_RETRY_DELAY_SECS, None::<bool>, WorkerAction::Receive),
{
}

/// The retry delay changes only in three ways: a failed reconnect doubles it
/// (at most thirty seconds); a datagram handed on or a new sub-connection
/// brings it back to five seconds; every other event keeps it.
pub proof fn retry_delay_changes(phase: WorkerPhase, delay: u64, event: WorkerEvent)
    requires
        MIN_RETRY_DELAY_SECS <= delay <= MAX_RETRY_DELAY_SECS,
    ensures
        phase == WorkerPhase::Reconnecting && event == WorkerEvent::ReconnectFailed ==> transition(phase, delay, event).1 == (
            if 2 * delay <= 30 { 2 * delay } else { 30 }),
        (phase == WorkerPhase::Forwarding && event == WorkerEvent::Forwarded) || (phase
            == WorkerPhase::Reconnecting && event == WorkerEvent::Reconnected) ==> transition(phase, delay, event).1 == 5,
        !(phase == WorkerPhase::Reconnecting && (event == WorkerEvent::ReconnectFailed || event
            == WorkerEvent::Reconnected)) && !(phase == WorkerPhase::Forwarding && event == WorkerEvent::Forwarded)
            ==> transition(phase, delay, event).1 == delay,
{
}

/// The sub-connection is marked healthy exactly when it delivers a datagram
/// or is replaced, and failed exactly when receiving from it fails; every
/// other event leaves its health alone.
pub proof fn health_follows_the_sub_connection(phase: WorkerPhase, delay: u64, event: WorkerEvent)
    ensures
        transition(phase, delay, event).2 == Some(true) <==> (phase == WorkerPhase::Receiving && event
            == WorkerEvent::Received) || (phase == WorkerPhase::Reconnecting && event == WorkerEvent::Reconnected),
        transition(phase, delay, event).2 == Some(false) <==> (phase == WorkerPhase::Receiving && event
            == WorkerEvent::ReceiveFailed),
{
}

/// A worker stops exactly when it has stopped already, when it is cancelled
/// while waiting on its sub-connection, a pause or a reconnect, or when the
/// queue no longer takes its datagram.
pub proof fn worker_stops_only_when_told(phase: WorkerPhase, delay: u64, event: WorkerEvent)
    ensures
        transition(phase, delay, event).3 == WorkerAction::Stop <==> (phase == WorkerPhase::Stopped || (event
            == WorkerEvent::Cancelled && phase != WorkerPhase::Forwarding) || (phase == WorkerPhase::Forwarding
            && event == WorkerEvent::QueueClosed)),
{
}

/// The worker's round: a datagram is handed on; a receive error waits the
/// current retry delay, then reconnects; after a reconnect, failed or not,
/// the worker receives again.
pub proof fn worker_round(delay: u64)
    ensures
        transition(WorkerPhase::Receiving, delay, WorkerEvent::Received).0 == WorkerPhase::Forwarding,
        transition(WorkerPhase::Receiving, delay, WorkerEvent::Received).3 == WorkerAction::Forward,
        transition(WorkerPhase::Receiving, delay, WorkerEvent::ReceiveFailed).0 == WorkerPhase::Sleeping,
        transition(WorkerPhase::Receiving, delay, WorkerEvent::ReceiveFailed).3 == (WorkerAction::Sleep { secs: delay }),
        transition(WorkerPhase::Sleeping, delay, WorkerEvent::SleepElapsed).0 == WorkerPhase::Reconnecting,
        transition(WorkerPhase::Sleeping, delay, WorkerEvent::SleepElapsed).3 == WorkerAction::Reconnect,
        transition(WorkerPhase::Reconnecting, delay, WorkerEvent::Reconnected).0 == WorkerPhase::Receiving,
        transition(WorkerPhase::Reconnecting, delay, WorkerEvent::Reconnected).3 == WorkerAction::Receive,
        transition(WorkerPhase::Reconnecting, delay, WorkerEvent::ReconnectFailed).0 == WorkerPhase::Receiving,
        transition(WorkerPhase::Reconnecting, delay, WorkerEvent::ReconnectFailed).3 == WorkerAction::Receive,
{
}

/// A stopped worker stays stopped, whatever happens.
pub proof fn stopped_worker_stays_stopped(delay: u64, event: WorkerEvent)
    ensures
        transition(WorkerPhase::Stopped, delay, event).0 == WorkerPhase::Stopped,
        transition(WorkerPhase::Stopped, delay, event).3 == WorkerAction::Stop,
{
}

/// Failed reconnects never shorten the wait, and enough of them reach the
/// maximum: from any delay in bounds, three failures give thirty seconds.
pub proof fn failed_reconnects_back_off(delay: u64)
    requires
        MIN_RETRY_DELAY_SECS <= delay <= MAX_RETRY_DELAY_SECS,
    ensures
        next_delay(delay) >= delay,
        next_delay(next_delay(next_delay(delay))) == MAX_RETRY_DELAY_SECS,
{
}

} // verus!
