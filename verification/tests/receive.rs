use coerce::remote::cluster::node::{RemoteNode, Timestamp};
use coerce::remote::net::client::receive::{ClientMessageReceiver, Received};
use coerce::remote::net::message::{
    ClientResult, ClientType, HandshakeAcknowledge, Heartbeat, MessageRequest, SessionEvent,
    SessionHandshake,
};

fn peer_handshake() -> SessionEvent {
    SessionEvent::Handshake(SessionHandshake {
        node_id: 42,
        node_tag: "peer".to_string(),
        token: vec![],
        client_type: ClientType::Worker,
        trace_id: String::new(),
        nodes: vec![RemoteNode::new(43, "10.0.0.43:30101".to_string())],
    })
}

#[test]
fn first_handshake_of_a_session_says_who_the_peer_is() {
    let mut receiver = ClientMessageReceiver::new("10.0.0.42:30101".to_string());
    match receiver.on_event(peer_handshake()) {
        Received::Identity(identity) => {
            assert_eq!(identity.node.id, 42);
            assert_eq!(identity.node.addr, "10.0.0.42:30101");
            assert_eq!(identity.node.tag, "peer");
            assert!(identity.node.node_started_at.is_none());
            assert_eq!(identity.peers.len(), 1);
            assert_eq!(identity.peers[0].id, 43);
        }
        _ => panic!("the peer said who it is"),
    }
    match receiver.on_event(peer_handshake()) {
        Received::Event(SessionEvent::Handshake(handshake)) => assert_eq!(handshake.node_id, 42),
        _ => panic!("the peer had said who it is"),
    }
}

#[test]
fn acknowledgement_is_for_the_client() {
    let mut receiver = ClientMessageReceiver::new("a:1".to_string());
    let ack = SessionEvent::HandshakeAck(HandshakeAcknowledge { node_id: 7, node_tag: "t".to_string() });
    match receiver.on_event(ack) {
        Received::HandshakeAcknowledge(ack) => {
            assert_eq!(ack.node_id, 7);
            assert_eq!(ack.node_tag, "t");
        }
        _ => panic!("the peer acknowledged"),
    }
}

#[test]
fn result_is_the_reply_to_a_request() {
    let mut receiver = ClientMessageReceiver::new("a:1".to_string());
    match receiver.on_event(SessionEvent::Result(ClientResult { correlation: 99, payload: vec![1] })) {
        Received::Reply(result) => {
            assert_eq!(result.correlation, 99);
            assert_eq!(result.payload, vec![1]);
        }
        _ => panic!("the peer replied"),
    }
}

#[test]
fn other_events_are_passed_on() {
    let mut receiver = ClientMessageReceiver::new("a:1".to_string());
    let beat = Heartbeat { correlation: 1, timestamp: Timestamp { seconds: 2, nanos: 3 } };
    assert!(matches!(receiver.on_event(SessionEvent::Ping(beat)), Received::Event(SessionEvent::Ping(b)) if b == beat));
    assert!(matches!(receiver.on_event(SessionEvent::Pong(beat)), Received::Event(SessionEvent::Pong(b)) if b == beat));
    let message = SessionEvent::Message(MessageRequest {
        handler_name: "h".to_string(),
        correlation: 5,
        recipient: "r".to_string(),
        payload: vec![],
        trace_id: String::new(),
    });
    assert!(matches!(
        receiver.on_event(message),
        Received::Event(SessionEvent::Message(m)) if m.correlation == 5 && m.recipient == "r"
    ));
    // none of these says who the peer is
    assert!(matches!(receiver.on_event(peer_handshake()), Received::Identity(_)));
}

#[test]
fn frames_are_read_and_sorted() {
    let mut receiver = ClientMessageReceiver::new("a:1".to_string());
    assert!(matches!(receiver.on_recv(vec![]), Received::Malformed));
    assert!(matches!(receiver.on_recv(vec![9, 9, 9]), Received::Malformed));
    let ack = vec![1, 1, 0, 0, 0, 0, 0, 0, 0, 1, 0, 0, 0, 97];
    assert!(matches!(
        receiver.on_recv(ack),
        Received::HandshakeAcknowledge(ack) if ack.node_id == 1 && ack.node_tag == "a"
    ));
    // what is no event does not count as the peer's word either
    assert!(matches!(receiver.on_recv(vec![0]), Received::Malformed));
    let handshake = peer_handshake().encode().unwrap();
    assert!(matches!(receiver.on_recv(handshake.clone()), Received::Identity(i) if i.node.id == 42));
    assert!(matches!(receiver.on_recv(handshake), Received::Event(SessionEvent::Handshake(_))));
}
