use vstd::prelude::*;
use crate::address::SocketAddress;

verus! {

/// Where a one-way flow between two connections stands.
#[derive(Clone, Copy, Debug, PartialEq, Eq, Structural)]
pub enum FlowPhase {
    Receiving,
    Sending,
    Stopped,
}

/// What happened to the flow.
#[derive(Clone, Copy, Debug, PartialEq, Eq)]
pub enum FlowEvent {
    /// The flow's cancellation token fired.
    Cancelled,
    /// Receiving from the source connection failed.
    ReceiveFailed,
    /// Nothing arrived within the idle timeout.
    IdleTimeout,
    /// A datagram of `len` bytes arrived from `source`.
    Received { len: usize, source: SocketAddress },
    /// The datagram went out.
    Sent,
    /// Sending the datagram failed.
    SendFailed,
}

/// What the flow does next.
#[derive(Clone, Copy, Debug, PartialEq, Eq)]
pub enum FlowAction {
    /// Receive from the source connection.
    Receive,
    /// Send the `len` bytes just received; where `record_source` is given,
    /// store it in the flow's source cache first.
    Forward { len: usize, record_source: Option<SocketAddress> },
    /// Cancel the token shared with the opposite flow and end.
    Stop,
}

/// How a datagram goes out.
#[derive(Clone, Copy, Debug, PartialEq, Eq)]
pub enum Route {
    /// `send_to` this address.
    SendTo(SocketAddress),
    /// `send` on the connected connection, whose peer is this address.
    Send(SocketAddress),
}

/// One direction of a proxied exchange: datagrams received from one
/// connection are sent on another. A flow may record where its datagrams
/// come from (for the opposite flow to answer there), and may send to the
/// address the opposite flow recorded.
pub struct ProxyFlow {
    pub to_addr: SocketAddress,
    pub records_source: bool,
    pub reads_destination: bool,
    pub phase: FlowPhase,
}

/// The flow's transition: next phase and action.
pub open spec fn flow_transition(flow: ProxyFlow, event: FlowEvent) -> (FlowPhase, FlowAction) {
    match (flow.phase, event) {
        (FlowPhase::Receiving, FlowEvent::Received { len, source }) => if len == 0 {
            (FlowPhase::Stopped, FlowAction::Stop)
        } else {
            (FlowPhase::Sending, FlowAction::Forward {
                len,
                record_source: if flow.records_source { Some(source) } else { None },
            })
        },
        (FlowPhase::Receiving, FlowEvent::Cancelled)
        | (FlowPhase::Receiving, FlowEvent::ReceiveFailed)
        | (FlowPhase::Receiving, FlowEvent::IdleTimeout)
        | (FlowPhase::Sending, FlowEvent::SendFailed)
        | (FlowPhase::Stopped, _) => (FlowPhase::Stopped, FlowAction::Stop),
        (FlowPhase::Sending, FlowEvent::Sent) => (FlowPhase::Receiving, FlowAction::Receive),
        _ => (flow.phase, FlowAction::Stop),
    }
}

/// The events a flow can meet in each phase: a receive ends in a datagram,
/// an error, the idle timeout or cancellation; a send ends in success or an
/// error (cancellation is not watched while sending).
pub open spec fn expects(phase: FlowPhase, event: FlowEvent) -> bool {
    match phase {
        FlowPhase::Receiving => !(event is Sent || event is SendFailed),
        FlowPhase::Sending => event is Sent || event is SendFailed,
        FlowPhase::Stopped => true,
    }
}

/// The way the datagram goes out, given what the destination cache holds.
pub open spec fn flow_route(flow: ProxyFlow, cached: Option<SocketAddress>) -> Route {
    if flow.reads_destination {
        Route::SendTo(match cached {
            Some(d) => d,
            None => flow.to_addr,
        })
    } else {
        Route::Send(flow.to_addr)
    }
}

impl ProxyFlow {
    /// A flow about to receive, towards `to_addr`.
    pub fn new(to_addr: SocketAddress, records_source: bool, reads_destination: bool) -> (res: ProxyFlow)
        ensures
            res.to_addr == to_addr,
            res.records_source == records_source,
            res.reads_destination == reads_destination,
            res.phase == FlowPhase::Receiving,
    {
        ProxyFlow { to_addr, records_source, reads_destination, phase: FlowPhase::Receiving }
    }

    /// Takes an event. Cancellation, a receive error, the idle timeout, an
    /// empty datagram or a send error end the flow; a datagram is forwarded,
    /// its source recorded where the flow records sources; once sent, the
    /// flow receives again.
    pub fn on_event(&mut self, event: FlowEvent) -> (action: FlowAction)
        requires
            expects(old(self).phase, event),
        ensures
            final(self).to_addr == old(self).to_addr,
            final(self).records_source == old(self).records_source,
            final(self).reads_destination == old(self).reads_destination,
            (final(self).phase, action) == flow_transition(*old(self), event),
    {
        match (self.phase, event) {
            (FlowPhase::Receiving, FlowEvent::Received { len, source }) => {
                if len == 0 {
                    self.phase = FlowPhase::Stopped;
                    FlowAction::Stop
                } else {
                    self.phase = FlowPhase::Sending;
                    FlowAction::Forward {
                        len,
                        record_source: if self.records_source { Some(source) } else { None },
                    }
                }
            },
            (FlowPhase::Receiving, FlowEvent::Cancelled)
            | (FlowPhase::Receiving, FlowEvent::ReceiveFailed)
            | (FlowPhase::Receiving, FlowEvent::IdleTimeout)
            | (FlowPhase::Sending, FlowEvent::SendFailed)
            | (FlowPhase::Stopped, _) => {
                self.phase = FlowPhase::Stopped;
                FlowAction::Stop
            },
            (FlowPhase::Sending, _) => {
                self.phase = FlowPhase::Receiving;
                FlowAction::Receive
            },
            (FlowPhase::Receiving, _) => {
                self.phase = FlowPhase::Stopped;
                FlowAction::Stop
            },
        }
    }

    /// Where the datagram goes: a flow that reads the opposite flow's record
    /// sends to the recorded address, or to `to_addr` while none is recorded;
    /// any other flow sends on its connected connection, towards `to_addr`.
    pub fn route(&self, cached: Option<SocketAddress>) -> (res: Route)
        ensures
            res == flow_route(*self, cached),
    {
        if self.reads_destination {
            Route::SendTo(match cached {
                Some(d) => d,
                None => self.to_addr,
            })
        } else {
            Route::Send(self.to_addr)
        }
    }
}

/// Once a datagram has gone out, every flow, whichever caches it uses, goes
/// back to receiving the next one.
pub proof fn sent_datagram_resumes_receiving(flow: ProxyFlow)
    requires
        flow.phase == FlowPhase::Sending,
    ensures
        flow_transition(flow, FlowEvent::Sent) == (FlowPhase::Receiving, FlowAction::Receive),
{
}

/// A flow ends exactly on cancellation, a receive or send error, the idle
/// timeout or an empty datagram (or when it has ended already); a flow that
/// has not ended is receiving or sending.
pub proof fn flow_ends_only_on_end_events(flow: ProxyFlow, event: FlowEvent)
    requires
        expects(flow.phase, event),
    ensures
        (flow_transition(flow, event).1 == FlowAction::Stop) <==> (
            flow.phase == FlowPhase::Stopped
            || event == FlowEvent::Cancelled
            || event == FlowEvent::ReceiveFailed
            || event == FlowEvent::IdleTimeout
            || event == FlowEvent::SendFailed
            || (event matches FlowEvent::Received { len, .. } && len == 0)
        ),
        (flow_transition(flow, event).1 == FlowAction::Stop) <==> (flow_transition(flow, event).0 == FlowPhase::Stopped),
{
}

/// A non-empty datagram puts a receiving flow into sending it.
pub proof fn received_datagram_is_sent_next(flow: ProxyFlow, len: usize, source: SocketAddress)
    requires
        flow.phase == FlowPhase::Receiving,
        len > 0,
    ensures
        flow_transition(flow, FlowEvent::Received { len, source }).0 == FlowPhase::Sending,
{
}

/// A flow that reads the opposite flow's record sends with `send_to` to the
/// recorded address, or to its target while none is recorded; any other
/// flow sends on its connected connection, towards its target.
pub proof fn route_follows_the_record(flow: ProxyFlow, cached: Option<SocketAddress>)
    ensures
        flow.reads_destination && cached is Some ==> flow_route(flow, cached) == Route::SendTo(cached->0),
        flow.reads_destination && cached is None ==> flow_route(flow, cached) == Route::SendTo(flow.to_addr),
        !flow.reads_destination ==> flow_route(flow, cached) == Route::Send(flow.to_addr),
{
}

/// A stopped flow stays stopped, whatever happens.
pub proof fn stopped_flow_stays_stopped(flow: ProxyFlow, event: FlowEvent)
    requires
        flow.phase == FlowPhase::Stopped,
    ensures
        flow_transition(flow, event) == (FlowPhase::Stopped, FlowAction::Stop),
{
}

/// Every datagram forwarded goes out whole, and its source is recorded
/// exactly when the flow records sources.
pub proof fn forwards_whole_datagrams(flow: ProxyFlow, len: usize, source: SocketAddress)
    requires
        flow.phase == FlowPhase::Receiving,
        len > 0,
    ensures
        flow_transition(flow, FlowEvent::Received { len, source }).1 == (FlowAction::Forward {
            len,
            record_source: if flow.records_source { Some(source) } else { None },
        }),
{
}

/// A reply finds its way back: when one flow records the source of what it
/// forwards and the opposite flow reads that record, the opposite flow sends
/// to the recorded source.
pub proof fn replies_go_to_recorded_source(forward: ProxyFlow, back: ProxyFlow, len: usize, source: SocketAddress)
    requires
        forward.phase == FlowPhase::Receiving,
        forward.records_source,
        back.reads_destination,
        len > 0,
    ensures
        flow_transition(forward, FlowEvent::Received { len, source }).1 matches FlowAction::Forward { record_source: Some(r), .. }
            && flow_route(back, Some(r)) == Route::SendTo(source),
{
}

} // verus!
