use gtbot::ws::{WsLink, WsPacketEvent, WsReadOutcome};

fn connected_link() -> WsLink {
    let mut link = WsLink::new();
    assert!(link.connect_finished(true));
    link
}

#[test]
fn new_link_reads_nothing_until_connected() {
    let link = WsLink::new();
    assert!(!link.wants_read());
    assert!(!link.is_connected());
    assert!(!link.can_send());
    assert!(link.text_frame(b"x").is_none());
}

#[test]
fn failed_connect_stays_unconnected() {
    let mut link = WsLink::new();
    assert!(!link.connect_finished(false));
    assert!(!link.wants_read());
    assert!(!link.is_connected());
    assert!(!link.can_send());
}

#[test]
fn messages_are_received() {
    let mut link = connected_link();
    assert!(link.wants_read());
    let step = link.read_finished(WsReadOutcome::Binary(vec![1, 2, 3]));
    assert!(matches!(step.event, WsPacketEvent::Receive(ref d) if d == &vec![1, 2, 3]));
    assert!(step.pong.is_none());
    let step = link.read_finished(WsReadOutcome::Text(b"hi".to_vec()));
    assert!(matches!(step.event, WsPacketEvent::Receive(ref d) if d == b"hi"));
    assert!(link.is_connected());
}

#[test]
fn ping_is_answered_with_pong() {
    let mut link = connected_link();
    let step = link.read_finished(WsReadOutcome::Ping(vec![9, 8]));
    assert!(matches!(step.event, WsPacketEvent::NoEvent));
    assert_eq!(step.pong, Some(vec![9, 8]));
    for o in [WsReadOutcome::Pong, WsReadOutcome::Frame, WsReadOutcome::Idle] {
        let step = link.read_finished(o);
        assert!(matches!(step.event, WsPacketEvent::NoEvent));
        assert!(step.pong.is_none());
    }
    assert!(link.wants_read());
}

#[test]
fn close_and_failure_disconnect() {
    let mut link = connected_link();
    let step = link.read_finished(WsReadOutcome::Close);
    assert!(matches!(step.event, WsPacketEvent::Disconnect));
    assert!(!link.wants_read());
    assert!(!link.is_connected());
    assert!(link.can_send());

    let mut link = connected_link();
    let step = link.read_finished(WsReadOutcome::Failed);
    assert!(matches!(step.event, WsPacketEvent::Disconnect));
    assert!(!link.wants_read());
}

#[test]
fn failed_send_disconnects() {
    let mut link = connected_link();
    assert!(link.send_finished(true));
    assert!(link.is_connected());
    assert!(!link.send_finished(false));
    assert!(!link.is_connected());
    assert!(!link.wants_read());
}

#[test]
fn disconnect_drops_socket_and_reconnect_reads_again() {
    let mut link = connected_link();
    link.disconnect();
    assert!(!link.is_connected());
    assert!(!link.can_send());
    assert!(!link.wants_read());
    assert!(link.connect_finished(true));
    assert!(link.wants_read());
}

#[test]
fn text_frame_decodes_lossily() {
    let link = connected_link();
    assert_eq!(link.text_frame("héllo".as_bytes()), Some("héllo".to_string()));
    assert_eq!(link.text_frame(&[b'a', 0xff, b'b']), Some("a\u{fffd}b".to_string()));
}
