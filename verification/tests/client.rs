use coerce::remote::cluster::node::{RemoteNode, Timestamp};
use coerce::remote::net::client::connect::{
    BeginHandshake, Connect, Dialled, Disconnected, ProtocolViolation, PING_INTERVAL_MILLIS,
    RECONNECT_DELAY_MILLIS,
};
use coerce::remote::net::client::send::{Write, WriteStep};
use coerce::remote::net::client::{
    ClientState, HandshakeStatus, NodeIdentity, RemoteClient, RemoteClientErr,
};
use coerce::remote::net::message::{ClientType, HandshakeAcknowledge, SessionEvent};
use coerce::remote::net::StreamData;
use std::io::{Error, ErrorKind};

/// A stream that records what reaches the peer and fails when told to.
struct Wire {
    received: Vec<Vec<u8>>,
    broken: bool,
}

impl Wire {
    fn new() -> Wire {
        Wire { received: Vec::new(), broken: false }
    }

    fn send(&mut self, bytes: &[u8]) -> Result<(), RemoteClientErr> {
        if self.broken {
            Err(RemoteClientErr::StreamErr(Error::new(ErrorKind::BrokenPipe, "peer is gone")))
        } else {
            self.received.push(bytes.to_vec());
            Ok(())
        }
    }
}

type Client = RemoteClient<Wire, &'static str, &'static str>;

struct Text(&'static str);

impl StreamData for Text {
    fn read_from_bytes(_data: Vec<u8>) -> Option<Text> {
        None
    }

    fn write_to_bytes(&self) -> Option<Vec<u8>> {
        if self.0.is_empty() {
            None
        } else {
            Some(self.0.as_bytes().to_vec())
        }
    }
}

fn client() -> Client {
    RemoteClient::new("10.0.0.1:30101".to_string(), ClientType::Worker)
}

fn identity(id: u64) -> NodeIdentity {
    NodeIdentity {
        node: RemoteNode::described(id, "10.0.0.1:30101".to_string(), "peer".to_string(), None),
        peers: vec![RemoteNode::new(id + 1, "10.0.0.2:30101".to_string())],
    }
}

fn reached(id: u64) -> Dialled<Wire> {
    Dialled::Identified { identity: identity(id), link: Wire::new() }
}

/// Hands the write buffer to the peer, as the hosting program does after a
/// session has been established.
fn flush(client: &mut Client) {
    let mut last = None;
    while let Some(bytes) = client.flush_buffered_writes(last.take()) {
        let outcome = client.link_mut().expect("a flush hands out entries to a session").send(&bytes);
        last = Some((bytes, outcome));
    }
}

/// Sends a value, as the hosting program does for a `Write`.
fn write(client: &mut Client, message: Write<Text>) -> Result<(), RemoteClientErr> {
    match client.write(message.0)? {
        WriteStep::Buffered => {}
        WriteStep::Send(bytes) => {
            let outcome = client.link_mut().expect("bytes are handed out to a session").send(&bytes);
            client.write_completed(bytes, outcome);
        }
    }
    Ok(())
}

fn buffered(client: &Client) -> Vec<Vec<u8>> {
    client.write_buffer().iter().cloned().collect()
}

fn attempts(client: &Client) -> Option<u32> {
    match client.state() {
        ClientState::Idle { connection_attempts } => Some(*connection_attempts),
        ClientState::Quarantined { connection_attempts, .. } => Some(*connection_attempts),
        ClientState::Connected(_) => None,
    }
}

#[test]
fn new_client_is_idle_and_empty() {
    let client = client();
    assert!(matches!(client.state(), ClientState::Idle { connection_attempts: 0 }));
    assert_eq!(client.addr(), "10.0.0.1:30101");
    assert_eq!(client.client_type(), ClientType::Worker);
    assert!(client.write_buffer().is_empty());
    assert_eq!(client.write_buffer_bytes_total(), 0);
}

#[test]
fn timing_constants() {
    assert_eq!(RECONNECT_DELAY_MILLIS, 1000);
    assert_eq!(PING_INTERVAL_MILLIS, 500);
}

#[test]
fn buffer_message_appends_and_counts() {
    let mut client = client();
    client.buffer_message(vec![1, 2, 3]);
    assert_eq!(client.write_buffer_bytes_total(), 3);
    client.buffer_message(vec![]);
    assert_eq!(client.write_buffer_bytes_total(), 3);
    client.buffer_message(vec![4, 5]);
    assert_eq!(client.write_buffer_bytes_total(), 5);
    assert_eq!(buffered(&client), vec![vec![1, 2, 3], vec![], vec![4, 5]]);
}

#[test]
fn total_is_the_sum_of_the_entries_after_every_step() {
    let mut client = client();
    let sum = |client: &Client| client.write_buffer().iter().map(|e| e.len() as u128).sum::<u128>();
    write(&mut client, Write(Text("one"))).unwrap();
    assert_eq!(client.write_buffer_bytes_total(), sum(&client));
    write(&mut client, Write(Text("three"))).unwrap();
    assert_eq!(client.write_buffer_bytes_total(), 8);
    assert_eq!(client.write_buffer_bytes_total(), sum(&client));
    client.handle_disconnected(Disconnected);
    assert_eq!(client.write_buffer_bytes_total(), sum(&client));
    client.handle_connect(Connect, reached(1));
    client.link_mut().unwrap().broken = true;
    let first = client.flush_buffered_writes(None).unwrap();
    assert_eq!(client.write_buffer_bytes_total(), 5);
    assert_eq!(client.write_buffer_bytes_total(), sum(&client));
    let failed = Err(RemoteClientErr::StreamErr(Error::new(ErrorKind::Other, "down")));
    assert!(client.flush_buffered_writes(Some((first, failed))).is_none());
    assert_eq!(client.write_buffer_bytes_total(), 8);
    assert_eq!(client.write_buffer_bytes_total(), sum(&client));
    client.link_mut().unwrap().broken = false;
    flush(&mut client);
    assert_eq!(client.write_buffer_bytes_total(), 0);
    assert_eq!(client.write_buffer_bytes_total(), sum(&client));
}

#[test]
fn value_without_encoding_is_refused() {
    let mut client = client();
    assert!(matches!(client.write(Text("")), Err(RemoteClientErr::Encoding)));
    assert!(matches!(client.write_encoded(None), Err(RemoteClientErr::Encoding)));
    assert!(client.write_buffer().is_empty());
    client.handle_connect(Connect, reached(1));
    assert!(matches!(write(&mut client, Write(Text(""))), Err(RemoteClientErr::Encoding)));
    assert!(client.link_mut().unwrap().received.is_empty());
}

#[test]
fn write_without_a_session_buffers() {
    let mut client = client();
    assert!(matches!(client.write(Text("a")), Ok(WriteStep::Buffered)));
    assert!(matches!(client.write_encoded(Some(vec![7])), Ok(WriteStep::Buffered)));
    assert_eq!(buffered(&client), vec![b"a".to_vec(), vec![7]]);
    client.quarantine(Timestamp { seconds: 5, nanos: 0 });
    assert!(matches!(client.write(Text("b")), Ok(WriteStep::Buffered)));
    assert_eq!(buffered(&client), vec![b"a".to_vec(), vec![7], b"b".to_vec()]);
}

#[test]
fn session_event_is_written_as_its_bytes() {
    let mut client = client();
    let ack = SessionEvent::HandshakeAck(HandshakeAcknowledge { node_id: 1, node_tag: "a".to_string() });
    assert!(matches!(client.write(ack), Ok(WriteStep::Buffered)));
    assert_eq!(buffered(&client), vec![vec![1, 1, 0, 0, 0, 0, 0, 0, 0, 1, 0, 0, 0, 97]]);
    assert_eq!(client.write_buffer_bytes_total(), 14);
}

#[test]
fn write_with_a_session_hands_the_bytes_out() {
    let mut client = client();
    client.handle_connect(Connect, reached(1));
    match client.write(Text("now")) {
        Ok(WriteStep::Send(bytes)) => assert_eq!(bytes, b"now".to_vec()),
        _ => panic!("a connected client hands bytes out"),
    }
    assert!(client.write_buffer().is_empty());
    assert!(client.write_completed(b"now".to_vec(), Ok(())).is_none());
    assert!(client.write_buffer().is_empty());
    assert!(matches!(client.state(), ClientState::Connected(_)));
}

#[test]
fn error_that_is_not_of_the_stream_changes_nothing() {
    let mut client = client();
    client.handle_connect(Connect, reached(1));
    assert!(client.write_completed(vec![1], Err(RemoteClientErr::Encoding)).is_none());
    assert!(client.write_buffer().is_empty());
    assert!(matches!(client.state(), ClientState::Connected(_)));
}

#[test]
fn dial_that_fails_counts_attempts_and_asks_for_a_retry() {
    let mut client = client();
    let report = client.handle_connect(Connect, Dialled::ConnectFailed);
    assert!(matches!(client.state(), ClientState::Idle { connection_attempts: 1 }));
    assert!(report.identity.is_none());
    assert!(report.registration.is_none());
    let reconnect = report.reconnect.expect("a failed dial is tried again");
    assert_eq!(reconnect.retry_after_millis, 1000);
    assert!(reconnect.closed.is_none());

    write(&mut client, Write(Text("first"))).unwrap();
    write(&mut client, Write(Text("second"))).unwrap();

    let report = client.handle_connect(Connect, Dialled::ConnectFailed);
    assert!(matches!(client.state(), ClientState::Idle { connection_attempts: 2 }));
    assert_eq!(report.reconnect.unwrap().retry_after_millis, 1000);

    write(&mut client, Write(Text("third"))).unwrap();

    let report = client.handle_connect(Connect, reached(3));
    assert!(report.reconnect.is_none());
    flush(&mut client);
    assert_eq!(
        client.link_mut().unwrap().received,
        vec![b"first".to_vec(), b"second".to_vec(), b"third".to_vec()]
    );
    assert!(client.write_buffer().is_empty());
}

#[test]
fn peer_that_does_not_identify_leaves_the_client_idle() {
    let mut client = client();
    client.on_identified("waiter");
    assert!(client.connect(Connect, Dialled::IdentityMissing).is_none());
    let report = client.handle_connect(Connect, Dialled::IdentityMissing);
    assert_eq!(report.identified, vec!["waiter"]);
    assert!(report.identity.is_none());
    assert!(matches!(client.state(), ClientState::Idle { connection_attempts: 1 }));
}

#[test]
fn connect_brings_a_fresh_session() {
    let client = client();
    let connection = client.connect(Connect, reached(4)).expect("the peer was reached");
    assert_eq!(connection.identity.node.id, 4);
    assert_eq!(connection.identity.peers.len(), 1);
    assert!(matches!(connection.handshake, HandshakeStatus::Unacknowledged));
    assert!(client.connect(Connect, Dialled::ConnectFailed).is_none());
}

#[test]
fn dial_that_succeeds_connects_and_resolves_waiters_newest_first() {
    let mut client = client();
    client.on_identified("a");
    client.on_identified("b");
    client.on_identified("c");
    let report = client.handle_connect(Connect, reached(42));
    assert_eq!(report.identified, vec!["c", "b", "a"]);
    let identity = report.identity.expect("the peer said who it is");
    assert_eq!(identity.node.id, 42);
    assert_eq!(identity.node.tag, "peer");
    assert_eq!(identity.peers.len(), 1);
    assert_eq!(identity.peers[0].id, 43);
    let registration = report.registration.expect("the registry is told");
    assert_eq!(registration.addr, "10.0.0.1:30101");
    assert_eq!(registration.remote_node_id, 42);
    assert!(report.reconnect.is_none());
    match client.state() {
        ClientState::Connected(connection) => {
            assert_eq!(connection.identity.node.id, 42);
            assert!(matches!(connection.handshake, HandshakeStatus::Unacknowledged));
        }
        _ => panic!("the client has a session"),
    }
    let again = client.handle_connect(Connect, reached(42));
    assert!(again.identified.is_empty());
}

#[test]
fn stream_error_on_write_buffers_the_payload_and_disconnects() {
    let mut client = client();
    client.handle_connect(Connect, reached(1));
    write(&mut client, Write(Text("before"))).unwrap();
    client.link_mut().unwrap().broken = true;
    assert!(write(&mut client, Write(Text("P"))).is_ok());
    assert_eq!(client.write_buffer().front(), Some(&b"P".to_vec()));
    assert!(matches!(client.state(), ClientState::Idle { connection_attempts: 1 }));
    assert!(client.link_mut().is_none());
    write(&mut client, Write(Text("after"))).unwrap();

    client.handle_connect(Connect, reached(1));
    flush(&mut client);
    assert_eq!(client.link_mut().unwrap().received, vec![b"P".to_vec(), b"after".to_vec()]);
}

#[test]
fn stream_error_hands_the_session_out_to_be_torn_down() {
    let mut client = client();
    client.handle_connect(Connect, reached(8));
    let failed = Err(RemoteClientErr::StreamErr(Error::new(ErrorKind::ConnectionReset, "reset")));
    let reconnect = client.write_completed(vec![9, 9], failed).expect("the session is gone");
    assert_eq!(reconnect.retry_after_millis, 1000);
    assert_eq!(reconnect.closed.expect("the session that ended").identity.node.id, 8);
    assert_eq!(buffered(&client), vec![vec![9, 9]]);
}

#[test]
fn disconnected_counts_attempts() {
    let mut client = client();
    let first = client.handle_disconnected(Disconnected);
    assert!(first.closed.is_none());
    assert_eq!(first.retry_after_millis, RECONNECT_DELAY_MILLIS);
    assert_eq!(attempts(&client), Some(1));
    client.handle_disconnected(Disconnected);
    assert_eq!(attempts(&client), Some(2));
    assert!(matches!(client.state(), ClientState::Idle { .. }));
}

#[test]
fn disconnected_ends_a_session_once() {
    let mut client = client();
    client.handle_connect(Connect, reached(5));
    let once = client.handle_disconnected(Disconnected);
    assert_eq!(once.closed.expect("the session that ended").identity.node.id, 5);
    assert!(matches!(client.state(), ClientState::Idle { connection_attempts: 1 }));
    let twice = client.handle_disconnected(Disconnected);
    assert!(twice.closed.is_none());
    assert_eq!(twice.retry_after_millis, once.retry_after_millis);
    assert!(matches!(client.state(), ClientState::Idle { connection_attempts: 2 }));
}

#[test]
fn quarantined_client_counts_attempts_and_keeps_its_date() {
    let mut client = client();
    client.handle_disconnected(Disconnected);
    client.handle_disconnected(Disconnected);
    let since = Timestamp { seconds: 1_700_000_000, nanos: 250 };
    client.quarantine(since);
    assert!(matches!(
        client.state(),
        ClientState::Quarantined { since: s, connection_attempts: 2 } if *s == since
    ));
    client.handle_disconnected(Disconnected);
    client.handle_connect(Connect, Dialled::ConnectFailed);
    assert!(matches!(
        client.state(),
        ClientState::Quarantined { since: s, connection_attempts: 4 } if *s == since
    ));
    client.quarantine(Timestamp { seconds: 1, nanos: 1 });
    assert!(matches!(client.state(), ClientState::Quarantined { since: s, .. } if *s == since));
    client.handle_connect(Connect, reached(2));
    client.quarantine(since);
    assert!(matches!(client.state(), ClientState::Connected(_)));
}

#[test]
fn flush_without_a_session_hands_out_nothing() {
    let mut client = client();
    client.buffer_message(vec![1]);
    assert!(client.flush_buffered_writes(None).is_none());
    assert_eq!(buffered(&client), vec![vec![1]]);
}

#[test]
fn flush_hands_the_buffer_out_oldest_first() {
    let mut client = client();
    client.buffer_message(vec![1]);
    client.buffer_message(vec![2, 2]);
    client.handle_connect(Connect, reached(1));
    assert_eq!(client.flush_buffered_writes(None), Some(vec![1]));
    assert_eq!(client.flush_buffered_writes(Some((vec![1], Ok(())))), Some(vec![2, 2]));
    assert_eq!(client.flush_buffered_writes(Some((vec![2, 2], Ok(())))), None);
    assert!(client.write_buffer().is_empty());
}

#[test]
fn flush_that_fails_puts_the_entry_back_and_ends() {
    let mut client = client();
    for entry in [vec![1], vec![2], vec![3]] {
        client.buffer_message(entry);
    }
    client.handle_connect(Connect, reached(1));
    assert_eq!(client.flush_buffered_writes(None), Some(vec![1]));
    let second = client.flush_buffered_writes(Some((vec![1], Ok(())))).unwrap();
    assert_eq!(second, vec![2]);
    let failed = Err(RemoteClientErr::StreamErr(Error::new(ErrorKind::TimedOut, "slow")));
    assert_eq!(client.flush_buffered_writes(Some((second, failed))), None);
    assert_eq!(buffered(&client), vec![vec![2], vec![3]]);
    assert!(matches!(client.state(), ClientState::Connected(_)));
    flush(&mut client);
    assert_eq!(client.link_mut().unwrap().received, vec![vec![2], vec![3]]);
}

#[test]
fn begin_handshake_needs_a_session() {
    let mut client = client();
    let message = BeginHandshake { seed_nodes: vec![], on_handshake_complete: "caller" };
    assert!(client.handle_begin_handshake(message, 1, "me".to_string()).is_none());
    client.handle_connect(Connect, reached(2));
    let waiting = client
        .handle_handshake_acknowledge(HandshakeAcknowledge { node_id: 2, node_tag: "peer".to_string() })
        .unwrap();
    assert!(waiting.is_empty());
}

#[test]
fn begin_handshake_writes_who_is_calling() {
    let mut client = client();
    client.handle_connect(Connect, reached(2));
    let seeds = vec![
        RemoteNode::described(
            11,
            "10.0.0.11:30101".to_string(),
            "seed".to_string(),
            Some(Timestamp { seconds: 3, nanos: 4 }),
        ),
        RemoteNode::new(12, "10.0.0.12:30101".to_string()),
    ];
    let message = BeginHandshake { seed_nodes: seeds, on_handshake_complete: "caller" };
    match client.handle_begin_handshake(message, 77, "worker-77".to_string()) {
        Some(SessionEvent::Handshake(handshake)) => {
            assert_eq!(handshake.node_id, 77);
            assert_eq!(handshake.node_tag, "worker-77");
            assert!(handshake.token.is_empty());
            assert_eq!(handshake.client_type, ClientType::Worker);
            assert_eq!(handshake.trace_id, "");
            assert_eq!(handshake.nodes.len(), 2);
            assert_eq!(handshake.nodes[0].id, 11);
            assert_eq!(handshake.nodes[0].addr, "10.0.0.11:30101");
            assert_eq!(handshake.nodes[0].tag, "seed");
            assert_eq!(handshake.nodes[0].node_started_at, Some(Timestamp { seconds: 3, nanos: 4 }));
            assert_eq!(handshake.nodes[1].id, 12);
            assert_eq!(handshake.nodes[1].node_started_at, None);
        }
        _ => panic!("a connected client opens the handshake"),
    }
}

#[test]
fn one_acknowledgement_fulfils_every_waiting_caller_once() {
    let mut client = client();
    client.handle_connect(Connect, reached(2));
    for caller in ["first", "second"] {
        let message = BeginHandshake { seed_nodes: vec![], on_handshake_complete: caller };
        assert!(client.handle_begin_handshake(message, 1, "me".to_string()).is_some());
    }
    let ack = HandshakeAcknowledge { node_id: 2, node_tag: "peer".to_string() };
    let fulfilled = client.handle_handshake_acknowledge(ack).expect("the client has a session");
    assert_eq!(fulfilled, vec!["second", "first"]);
    match client.state() {
        ClientState::Connected(connection) => match &connection.handshake {
            HandshakeStatus::Acknowledged(ack) => {
                assert_eq!(ack.node_id, 2);
                assert_eq!(ack.node_tag, "peer");
            }
            HandshakeStatus::Unacknowledged => panic!("the handshake was acknowledged"),
        },
        _ => panic!("the client has a session"),
    }
    let ack = HandshakeAcknowledge { node_id: 2, node_tag: "peer".to_string() };
    assert_eq!(client.handle_handshake_acknowledge(ack), Ok(vec![]));
}

#[test]
fn acknowledgement_without_a_session_is_a_protocol_violation() {
    let mut client = client();
    let ack = HandshakeAcknowledge { node_id: 2, node_tag: "peer".to_string() };
    assert_eq!(client.handle_handshake_acknowledge(ack), Err(ProtocolViolation));
    assert!(matches!(client.state(), ClientState::Idle { connection_attempts: 0 }));
}

#[test]
fn new_session_starts_with_no_handshake() {
    let mut client = client();
    client.handle_connect(Connect, reached(2));
    let ack = HandshakeAcknowledge { node_id: 2, node_tag: "peer".to_string() };
    client.handle_handshake_acknowledge(ack).unwrap();
    client.handle_disconnected(Disconnected);
    client.handle_connect(Connect, reached(2));
    match client.state() {
        ClientState::Connected(connection) => {
            assert!(matches!(connection.handshake, HandshakeStatus::Unacknowledged))
        }
        _ => panic!("the client has a session"),
    }
}

#[test]
fn remote_nodes_are_equal_by_id() {
    let a = RemoteNode::new(1, "a:1".to_string());
    let b = RemoteNode::described(1, "b:2".to_string(), "tag".to_string(), None);
    let c = RemoteNode::new(2, "a:1".to_string());
    assert!(a == b);
    assert!(a != c);
    let copy = b.clone();
    assert_eq!(copy.addr, "b:2");
    assert_eq!(copy.tag, "tag");
    assert_eq!(copy.id, 1);
}
