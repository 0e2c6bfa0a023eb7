use spoof::{
    host_filter, protocol_filter, session_filters, Error, Relay, RelayAction, RelayEvent,
    RelayState, Side,
};

fn received(from: Side, packet: &[u8]) -> RelayEvent {
    RelayEvent::Received { from, packet: packet.to_vec() }
}

#[test]
fn forwards_packet_verbatim_to_other_side() {
    let mut relay = Relay::new();
    let p1 = vec![0xde, 0xad, 0xbe, 0xef, 0x00, 0x01];
    let action = relay.on_event(received(Side::First, &p1));
    assert_eq!(action, RelayAction::Send { to: Side::Second, packet: p1.clone() });
    assert_eq!(relay.state(), RelayState::Sending { to: Side::Second });
    // no further packet is taken in before the send is reported
    assert!(!relay.accepts(&received(Side::First, &[1])));
    assert!(!relay.accepts(&received(Side::Second, &[1])));
    assert_eq!(relay.on_event(RelayEvent::Sent), RelayAction::AwaitPacket);
    assert_eq!(relay.state(), RelayState::Running);
}

#[test]
fn send_failure_stops_relay() {
    let mut relay = Relay::new();
    relay.on_event(received(Side::First, b"P1"));
    let err = Error::SystemCallFailure { code: 5 };
    assert_eq!(relay.on_event(RelayEvent::SendFailed { error: err }), RelayAction::Stop { error: err });
    assert_eq!(relay.state(), RelayState::Stopped { error: err });
    // whatever comes later, nothing more is sent
    assert!(relay.accepts(&received(Side::Second, b"P2")));
    assert_eq!(relay.on_event(received(Side::Second, b"P2")), RelayAction::Stop { error: err });
    assert_eq!(relay.on_event(RelayEvent::Sent), RelayAction::Stop { error: err });
    assert_eq!(relay.state(), RelayState::Stopped { error: err });
}

#[test]
fn receive_failure_stops_relay() {
    let mut relay = Relay::new();
    let ev = RelayEvent::ReceiveFailed { from: Side::Second, error: Error::StreamTerminated };
    assert_eq!(relay.on_event(ev), RelayAction::Stop { error: Error::StreamTerminated });
    assert_eq!(relay.state(), RelayState::Stopped { error: Error::StreamTerminated });
}

#[test]
fn alternating_arrivals_alternate_sends() {
    let mut relay = Relay::new();
    let arrivals = [(Side::First, b"a1".to_vec()), (Side::Second, b"b1".to_vec()), (Side::First, b"a2".to_vec())];
    let mut sends = Vec::new();
    for (from, packet) in arrivals.iter() {
        match relay.on_event(received(*from, packet)) {
            RelayAction::Send { to, packet } => sends.push((to, packet)),
            other => panic!("unexpected action {:?}", other),
        }
        assert_eq!(relay.on_event(RelayEvent::Sent), RelayAction::AwaitPacket);
    }
    assert_eq!(
        sends,
        vec![(Side::Second, b"a1".to_vec()), (Side::First, b"b1".to_vec()), (Side::Second, b"a2".to_vec())]
    );
}

#[test]
fn empty_packet_is_forwarded() {
    let mut relay = Relay::new();
    assert_eq!(
        relay.on_event(received(Side::Second, &[])),
        RelayAction::Send { to: Side::First, packet: Vec::new() }
    );
}

#[test]
fn opposite_sides() {
    assert_eq!(Side::First.opposite(), Side::Second);
    assert_eq!(Side::Second.opposite(), Side::First);
}

#[test]
fn filters_for_known_devices() {
    assert_eq!(host_filter("tap0"), Some(String::from("dst host 2001:db8:100::1")));
    assert_eq!(host_filter("veth0"), Some(String::from("dst host 2001:db8:100::2")));
    assert_eq!(
        session_filters("tap0"),
        vec![
            String::from("dst host 2001:db8:100::1"),
            String::from("udp or icmp6[0] = 135 or icmp6[0] = 136")
        ]
    );
}

#[test]
fn filters_for_unknown_device() {
    assert_eq!(host_filter("eth0"), None);
    assert_eq!(host_filter("tap"), None);
    assert_eq!(session_filters("eth0"), vec![protocol_filter()]);
    assert_eq!(protocol_filter(), "udp or icmp6[0] = 135 or icmp6[0] = 136");
}

#[test]
fn cancel_finishes_relay() {
    let mut relay = Relay::new();
    relay.on_event(received(Side::First, b"P1"));
    assert!(relay.accepts(&RelayEvent::Cancel));
    assert_eq!(relay.on_event(RelayEvent::Cancel), RelayAction::Finish);
    assert_eq!(relay.state(), RelayState::Finished);
    assert_eq!(relay.on_event(received(Side::Second, b"P2")), RelayAction::Finish);
}

#[test]
fn relay_starts_running() {
    let relay = Relay::new();
    assert_eq!(relay.state(), RelayState::Running);
    assert!(!relay.accepts(&RelayEvent::Sent));
    assert!(!relay.accepts(&RelayEvent::SendFailed { error: Error::StreamTerminated }));
}
