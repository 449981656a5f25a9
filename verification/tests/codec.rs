use coerce::remote::cluster::node::{RemoteNode, Timestamp};
use coerce::remote::net::codec::NetworkCodec;
use coerce::remote::net::message::{
    ClientResult, ClientType, HandshakeAcknowledge, Heartbeat, MessageRequest, SessionEvent,
    SessionHandshake,
};
use coerce::remote::net::StreamData;

fn handshake() -> SessionEvent {
    SessionEvent::Handshake(SessionHandshake {
        node_id: 0x0102_0304_0506_0708,
        node_tag: "wörker-1".to_string(),
        token: vec![0xde, 0xad, 0xbe, 0xef],
        client_type: ClientType::Worker,
        trace_id: "trace".to_string(),
        nodes: vec![
            RemoteNode::described(
                9,
                "10.0.0.9:30101".to_string(),
                "nine".to_string(),
                Some(Timestamp { seconds: 1_700_000_000, nanos: 999_999_999 }),
            ),
            RemoteNode::new(10, "10.0.0.10:30101".to_string()),
        ],
    })
}

fn events() -> Vec<SessionEvent> {
    vec![
        handshake(),
        SessionEvent::Handshake(SessionHandshake {
            node_id: 0,
            node_tag: String::new(),
            token: vec![],
            client_type: ClientType::Client,
            trace_id: String::new(),
            nodes: vec![],
        }),
        SessionEvent::HandshakeAck(HandshakeAcknowledge { node_id: u64::MAX, node_tag: "peer".to_string() }),
        SessionEvent::Ping(Heartbeat { correlation: 7, timestamp: Timestamp { seconds: 1, nanos: 2 } }),
        SessionEvent::Pong(Heartbeat {
            correlation: u64::MAX,
            timestamp: Timestamp { seconds: u64::MAX, nanos: u32::MAX },
        }),
        SessionEvent::Message(MessageRequest {
            handler_name: "TestActor.Echo".to_string(),
            correlation: 0x0011_2233_4455_6677_8899_aabb_ccdd_eeff,
            recipient: "actor-β".to_string(),
            payload: vec![0, 1, 2, 255],
            trace_id: "t".to_string(),
        }),
        SessionEvent::Result(ClientResult { correlation: u128::MAX, payload: vec![] }),
        SessionEvent::Result(ClientResult { correlation: 1, payload: vec![5; 300] }),
    ]
}

#[test]
fn every_event_is_read_as_it_was_written() {
    for event in events() {
        let bytes = event.encode().expect("the event is short enough to be written");
        let read = SessionEvent::decode(&bytes).expect("what was written can be read");
        assert_eq!(format!("{:?}", read), format!("{:?}", event));
        assert_eq!(read.encode(), Some(bytes));
    }
}

#[test]
fn stream_data_encodes_as_the_event_does() {
    for event in events() {
        let bytes = event.write_to_bytes().expect("the event is short enough to be written");
        assert_eq!(Some(bytes.clone()), event.encode());
        let read = SessionEvent::read_from_bytes(bytes).expect("what was written can be read");
        assert_eq!(format!("{:?}", read), format!("{:?}", event));
    }
}

#[test]
fn acknowledgement_bytes() {
    let ack = SessionEvent::HandshakeAck(HandshakeAcknowledge { node_id: 1, node_tag: "a".to_string() });
    assert_eq!(ack.encode(), Some(vec![1, 1, 0, 0, 0, 0, 0, 0, 0, 1, 0, 0, 0, 97]));
}

#[test]
fn ping_and_pong_bytes() {
    let beat = Heartbeat { correlation: 0x0102, timestamp: Timestamp { seconds: 3, nanos: 0x0400_0005 } };
    let fields = vec![2, 1, 0, 0, 0, 0, 0, 0, 3, 0, 0, 0, 0, 0, 0, 0, 5, 0, 0, 4];
    let mut ping = vec![2];
    ping.extend(&fields);
    let mut pong = vec![3];
    pong.extend(&fields);
    assert_eq!(SessionEvent::Ping(beat).encode(), Some(ping));
    assert_eq!(SessionEvent::Pong(beat).encode(), Some(pong));
}

#[test]
fn result_bytes() {
    let result = SessionEvent::Result(ClientResult { correlation: 0x0a0b, payload: vec![9, 8] });
    let mut bytes = vec![5, 0x0b, 0x0a];
    bytes.extend(vec![0; 14]);
    bytes.extend(vec![2, 0, 0, 0, 9, 8]);
    assert_eq!(result.encode(), Some(bytes));
}

#[test]
fn message_bytes() {
    let message = SessionEvent::Message(MessageRequest {
        handler_name: "h".to_string(),
        correlation: 1,
        recipient: "é".to_string(),
        payload: vec![7],
        trace_id: String::new(),
    });
    let mut bytes = vec![4, 1, 0, 0, 0, b'h', 1];
    bytes.extend(vec![0; 15]);
    bytes.extend(vec![2, 0, 0, 0, 0xc3, 0xa9, 1, 0, 0, 0, 7, 0, 0, 0, 0]);
    assert_eq!(message.encode(), Some(bytes));
}

#[test]
fn handshake_bytes() {
    let handshake = SessionEvent::Handshake(SessionHandshake {
        node_id: 2,
        node_tag: "t".to_string(),
        token: vec![1],
        client_type: ClientType::Worker,
        trace_id: "x".to_string(),
        nodes: vec![
            RemoteNode::described(3, "a".to_string(), "b".to_string(), Some(Timestamp { seconds: 4, nanos: 5 })),
            RemoteNode::new(6, String::new()),
        ],
    });
    let mut bytes = vec![0, 2, 0, 0, 0, 0, 0, 0, 0];
    bytes.extend(vec![1, 0, 0, 0, b't']);
    bytes.extend(vec![1, 0, 0, 0, 1]);
    bytes.push(1);
    bytes.extend(vec![1, 0, 0, 0, b'x']);
    bytes.extend(vec![2, 0, 0, 0]);
    bytes.extend(vec![3, 0, 0, 0, 0, 0, 0, 0, 1, 0, 0, 0, b'a', 1, 0, 0, 0, b'b']);
    bytes.extend(vec![1, 4, 0, 0, 0, 0, 0, 0, 0, 5, 0, 0, 0]);
    bytes.extend(vec![6, 0, 0, 0, 0, 0, 0, 0, 0, 0, 0, 0, 0, 0, 0, 0, 0]);
    assert_eq!(handshake.encode(), Some(bytes));
}

#[test]
fn bytes_that_are_no_frame_are_refused() {
    assert!(SessionEvent::decode(&[]).is_none());
    // no such kind
    assert!(SessionEvent::decode(&[6]).is_none());
    assert!(SessionEvent::decode(&[255, 0, 0, 0]).is_none());
    let ack = vec![1, 1, 0, 0, 0, 0, 0, 0, 0, 1, 0, 0, 0, 97];
    assert!(SessionEvent::decode(&ack).is_some());
    // cut short
    for cut in 0..ack.len() {
        assert!(SessionEvent::decode(&ack[..cut]).is_none());
    }
    // something behind the frame
    let mut longer = ack.clone();
    longer.push(0);
    assert!(SessionEvent::decode(&longer).is_none());
    // a text that is no UTF-8
    let mut broken = ack.clone();
    broken[13] = 0xff;
    assert!(SessionEvent::decode(&broken).is_none());
    // a length that leads beyond the end
    let mut long = ack.clone();
    long[9] = 2;
    assert!(SessionEvent::decode(&long).is_none());
}

#[test]
fn handshake_with_unknown_marks_is_refused() {
    let bytes = handshake().encode().unwrap();
    assert!(SessionEvent::decode(&bytes).is_some());
    // the byte of the client type stands behind id, tag and token
    let client_type_at = 1 + 8 + (4 + "wörker-1".len()) + (4 + 4);
    assert_eq!(bytes[client_type_at], 1);
    let mut other_type = bytes.clone();
    other_type[client_type_at] = 0;
    match SessionEvent::decode(&other_type) {
        Some(SessionEvent::Handshake(handshake)) => assert_eq!(handshake.client_type, ClientType::Client),
        _ => panic!("the bytes are a handshake"),
    }
    let mut no_type = bytes.clone();
    no_type[client_type_at] = 2;
    assert!(SessionEvent::decode(&no_type).is_none());
    // fewer nodes than announced
    let count_at = client_type_at + 1 + (4 + "trace".len());
    assert_eq!(&bytes[count_at..count_at + 4], &[2, 0, 0, 0]);
    let mut more = bytes.clone();
    more[count_at] = 3;
    assert!(SessionEvent::decode(&more).is_none());
    let mut fewer = bytes.clone();
    fewer[count_at] = 1;
    assert!(SessionEvent::decode(&fewer).is_none());
    // the mark of the moment a node started is 0 or 1
    let mark_at = count_at + 4 + 8 + (4 + "10.0.0.9:30101".len()) + (4 + "nine".len());
    assert_eq!(bytes[mark_at], 1);
    let mut no_mark = bytes.clone();
    no_mark[mark_at] = 7;
    assert!(SessionEvent::decode(&no_mark).is_none());
}

#[test]
fn frame_is_the_payload_behind_its_length() {
    let codec = NetworkCodec;
    let mut stream = vec![0xaa];
    assert!(codec.encode(&vec![1, 2, 3], &mut stream));
    assert_eq!(stream, vec![0xaa, 3, 0, 0, 0, 1, 2, 3]);
    assert!(codec.encode(&vec![], &mut stream));
    assert_eq!(stream, vec![0xaa, 3, 0, 0, 0, 1, 2, 3, 0, 0, 0, 0]);
    let mut long = Vec::new();
    assert!(codec.encode(&vec![7; 258], &mut long));
    assert_eq!(&long[..4], &[2, 1, 0, 0]);
    assert_eq!(long.len(), 262);
}

#[test]
fn frames_are_read_one_after_the_other() {
    let codec = NetworkCodec;
    let mut stream = Vec::new();
    codec.encode(&vec![1, 2, 3], &mut stream);
    codec.encode(&vec![], &mut stream);
    codec.encode(&vec![4], &mut stream);
    let (first, used) = codec.decode(&stream).expect("a whole frame");
    assert_eq!((first, used), (vec![1, 2, 3], 7));
    let stream = &stream[used..];
    let (second, used) = codec.decode(stream).expect("a whole frame");
    assert_eq!((second, used), (vec![], 4));
    let stream = &stream[used..];
    let (third, used) = codec.decode(stream).expect("a whole frame");
    assert_eq!((third, used), (vec![4], 5));
    assert!(codec.decode(&stream[used..]).is_none());
}

#[test]
fn part_of_a_frame_is_no_frame() {
    let codec = NetworkCodec;
    let mut stream = Vec::new();
    codec.encode(&vec![1, 2, 3, 4, 5], &mut stream);
    for received in 0..stream.len() {
        assert!(codec.decode(&stream[..received]).is_none());
    }
    assert!(codec.decode(&stream).is_some());
}

#[test]
fn event_travels_in_a_frame() {
    let codec = NetworkCodec;
    let mut stream = Vec::new();
    for event in events() {
        assert!(codec.encode(&event.encode().unwrap(), &mut stream));
    }
    let mut at = 0;
    for event in events() {
        let (payload, used) = codec.decode(&stream[at..]).expect("a whole frame");
        at += used;
        let read = SessionEvent::decode(&payload).expect("the payload is an event");
        assert_eq!(format!("{:?}", read), format!("{:?}", event));
    }
    assert_eq!(at, stream.len());
}

#[test]
fn correlation_ids_stand_for_uuids() {
    let id = uuid::Uuid::from_u128(0x0011_2233_4455_6677_8899_aabb_ccdd_eeff);
    let result = SessionEvent::Result(ClientResult { correlation: id.as_u128(), payload: vec![] });
    match SessionEvent::decode(&result.encode().unwrap()) {
        Some(SessionEvent::Result(result)) => assert_eq!(uuid::Uuid::from_u128(result.correlation), id),
        _ => panic!("the bytes are a result"),
    }
}
