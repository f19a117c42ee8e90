use turn_proxy::address::SocketAddress;
use turn_proxy::client_config::{ProviderConfiguration, ProviderDetails};
use turn_proxy::flow::{FlowAction, FlowEvent, FlowPhase, ProxyFlow, Route};
use turn_proxy::listening::{
    accept_decision, provider_threads, sort_by_priority, AcceptAction, AcceptEvent, ProviderRotation, RotationEvent, RotationStep,
};

fn a(port: u16) -> SocketAddress {
    SocketAddress::V4 { ip: [127, 0, 0, 1], port }
}

#[test]
fn flow_forwards_and_records_source() {
    let mut f = ProxyFlow::new(a(1), true, false);
    assert_eq!(f.on_event(FlowEvent::Received { len: 10, source: a(2) }), FlowAction::Forward { len: 10, record_source: Some(a(2)) });
    assert_eq!(f.route(None), Route::Send(a(1)));
    assert_eq!(f.on_event(FlowEvent::Sent), FlowAction::Receive);
    assert_eq!(f.phase, FlowPhase::Receiving);
}

#[test]
fn flow_reads_destination_cache() {
    let mut f = ProxyFlow::new(a(1), false, true);
    assert_eq!(f.on_event(FlowEvent::Received { len: 3, source: a(2) }), FlowAction::Forward { len: 3, record_source: None });
    assert_eq!(f.route(Some(a(7))), Route::SendTo(a(7)));
    assert_eq!(f.route(None), Route::SendTo(a(1)));
}

#[test]
fn flow_stops_on_empty_datagram_errors_and_cancel() {
    for ev in [FlowEvent::Received { len: 0, source: a(2) }, FlowEvent::Cancelled, FlowEvent::ReceiveFailed, FlowEvent::IdleTimeout] {
        let mut f = ProxyFlow::new(a(1), true, true);
        assert_eq!(f.on_event(ev), FlowAction::Stop);
        assert_eq!(f.phase, FlowPhase::Stopped);
        assert_eq!(f.on_event(FlowEvent::Received { len: 5, source: a(2) }), FlowAction::Stop);
    }
    let mut f = ProxyFlow::new(a(1), true, true);
    f.on_event(FlowEvent::Received { len: 5, source: a(2) });
    assert_eq!(f.on_event(FlowEvent::SendFailed), FlowAction::Stop);
}

fn p(priority: Option<u32>, threads: Option<usize>) -> ProviderConfiguration {
    ProviderConfiguration { priority, using_udp: false, using_dtls_obfuscation: false, details: ProviderDetails::Direct, threads }
}

#[test]
fn providers_sort_stably_by_priority() {
    let input = vec![p(None, Some(1)), p(Some(2), Some(2)), p(Some(1), Some(3)), p(Some(2), Some(4)), p(None, Some(5)), p(Some(0), Some(6))];
    let sorted = sort_by_priority(input.clone());
    let tags: Vec<Option<usize>> = sorted.iter().map(|x| x.threads).collect();
    assert_eq!(tags, vec![Some(6), Some(3), Some(2), Some(4), Some(1), Some(5)]);
    let mut expected = input;
    expected.sort_by_key(|x| x.priority.unwrap_or(u32::MAX));
    let tags2: Vec<Option<usize>> = expected.iter().map(|x| x.threads).collect();
    assert_eq!(tags, tags2);
    assert!(sort_by_priority(Vec::new()).is_empty());
}

#[test]
fn provider_threads_default_to_one() {
    assert_eq!(provider_threads(&p(None, None)), 1);
    assert_eq!(provider_threads(&p(None, Some(16))), 16);
}

#[test]
fn rotation_tries_each_then_pauses() {
    let mut r = ProviderRotation::new(2);
    assert_eq!(r.next_step(RotationEvent::Checked { cancelled: false }), RotationStep::Try { index: 0 });
    assert_eq!(r.next_step(RotationEvent::Checked { cancelled: false }), RotationStep::Try { index: 1 });
    assert_eq!(r.next_step(RotationEvent::Checked { cancelled: false }), RotationStep::Pause { secs: 5 });
    assert_eq!(r.next_step(RotationEvent::Checked { cancelled: false }), RotationStep::Try { index: 0 });
    assert_eq!(r.next_step(RotationEvent::Checked { cancelled: true }), RotationStep::Stop);
    let mut empty = ProviderRotation::new(0);
    assert_eq!(empty.next_step(RotationEvent::Checked { cancelled: false }), RotationStep::Pause { secs: 5 });
}

#[test]
fn accept_decisions() {
    assert_eq!(accept_decision(AcceptEvent::Cancelled), AcceptAction::Shutdown);
    assert_eq!(accept_decision(AcceptEvent::TaskEnded), AcceptAction::Continue);
    assert_eq!(accept_decision(AcceptEvent::AcceptFailed { cancelled: true }), AcceptAction::Shutdown);
    assert_eq!(accept_decision(AcceptEvent::AcceptFailed { cancelled: false }), AcceptAction::Continue);
    assert_eq!(accept_decision(AcceptEvent::Accepted { permit: true }), AcceptAction::Serve);
    assert_eq!(accept_decision(AcceptEvent::Accepted { permit: false }), AcceptAction::Reject);
}

#[test]
fn replies_return_to_the_recorded_source() {
    let mut inbound = ProxyFlow::new(a(51820), true, false);
    let outbound = ProxyFlow::new(a(40000), false, true);
    let recorded = match inbound.on_event(FlowEvent::Received { len: 4, source: a(34567) }) {
        FlowAction::Forward { record_source, .. } => record_source,
        other => panic!("unexpected {:?}", other),
    };
    assert_eq!(outbound.route(recorded), Route::SendTo(a(34567)));
}

#[test]
fn failed_balancer_moves_to_the_next_provider() {
    let mut r = ProviderRotation::new(3);
    assert_eq!(r.next_step(RotationEvent::Checked { cancelled: false }), RotationStep::Try { index: 0 });
    assert_eq!(r.next_step(RotationEvent::BalancerFailed { cancelled: true }), RotationStep::Try { index: 1 });
    assert_eq!(r.next_step(RotationEvent::Checked { cancelled: true }), RotationStep::Stop);
}

#[test]
fn failed_last_balancer_stops_when_cancelled() {
    let mut r = ProviderRotation::new(1);
    assert_eq!(r.next_step(RotationEvent::Checked { cancelled: false }), RotationStep::Try { index: 0 });
    assert_eq!(r.next_step(RotationEvent::BalancerFailed { cancelled: true }), RotationStep::Stop);
    let mut q = ProviderRotation::new(1);
    q.next_step(RotationEvent::Checked { cancelled: false });
    assert_eq!(q.next_step(RotationEvent::BalancerFailed { cancelled: false }), RotationStep::Pause { secs: 5 });
}
