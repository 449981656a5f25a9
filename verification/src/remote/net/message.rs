//! What two nodes say to each other over a session, and how it is written.
//!
//! A frame carries one `SessionEvent`. Its bytes begin with one byte that
//! tells the kind of event; the fields follow in the order in which the types
//! below list them, each as the module `wire` writes it. A list of nodes
//! stands behind the number of its nodes, in four bytes. Reading gives back
//! what writing wrote.
use crate::remote::cluster::node::{node_models, NodeId, NodeModel, RemoteNode, Timestamp};
use crate::remote::net::wire::{
    blob_fits, blob_wire, lemma_blob_inverse, lemma_blob_round_trip, lemma_text_inverse,
    lemma_text_round_trip, lemma_u128_inverse, lemma_u128_round_trip, lemma_u32_inverse,
    lemma_u32_round_trip, lemma_u64_inverse, lemma_u64_round_trip, lemma_u8_inverse,
    lemma_u8_round_trip, parse_blob, parse_text,
    parse_u128, parse_u32, parse_u64, parse_u8, put_blob, put_text, put_u128, put_u32, put_u64,
    put_u8, take_blob, take_text, take_u128, take_u32, take_u64, take_u8, text_fits, text_wire,
    u128_wire, u32_wire, u64_wire,
};
use crate::remote::net::StreamData;
use vstd::prelude::*;

verus! {

/// The role in which a client opens a session.
#[derive(Clone, Copy, Debug, PartialEq, Eq, Structural)]
pub enum ClientType {
    Client,
    Worker,
}

/// Opens a session: who is calling, and which nodes the caller knows.
#[derive(Debug)]
pub struct SessionHandshake {
    pub node_id: NodeId,
    pub node_tag: String,
    pub token: Vec<u8>,
    pub client_type: ClientType,
    pub trace_id: String,
    pub nodes: Vec<RemoteNode>,
}

/// The peer's answer to a handshake.
#[derive(Debug)]
pub struct HandshakeAcknowledge {
    pub node_id: NodeId,
    pub node_tag: String,
}

/// A keep-alive probe or its echo.
#[derive(Clone, Copy, Debug, PartialEq, Eq, Structural)]
pub struct Heartbeat {
    pub correlation: u64,
    pub timestamp: Timestamp,
}

/// A message for an actor on the peer. `correlation` links it to its reply.
#[derive(Debug)]
pub struct MessageRequest {
    pub handler_name: String,
    pub correlation: u128,
    pub recipient: String,
    pub payload: Vec<u8>,
    pub trace_id: String,
}

/// The reply to the request with the same `correlation`.
#[derive(Debug)]
pub struct ClientResult {
    pub correlation: u128,
    pub payload: Vec<u8>,
}

/// One frame of a session, in either direction.
#[derive(Debug)]
pub enum SessionEvent {
    Handshake(SessionHandshake),
    HandshakeAck(HandshakeAcknowledge),
    Ping(Heartbeat),
    Pong(Heartbeat),
    Message(MessageRequest),
    Result(ClientResult),
}

/// A frame as contracts see it.
pub enum EventModel {
    Handshake {
        node_id: NodeId,
        node_tag: Seq<char>,
        token: Seq<u8>,
        client_type: ClientType,
        trace_id: Seq<char>,
        nodes: Seq<NodeModel>,
    },
    HandshakeAck { node_id: NodeId, node_tag: Seq<char> },
    Ping(Heartbeat),
    Pong(Heartbeat),
    Message {
        handler_name: Seq<char>,
        correlation: u128,
        recipient: Seq<char>,
        payload: Seq<u8>,
        trace_id: Seq<char>,
    },
    Result { correlation: u128, payload: Seq<u8> },
}

impl View for SessionEvent {
    type V = EventModel;

    open spec fn view(&self) -> EventModel {
        match *self {
            SessionEvent::Handshake(handshake) => EventModel::Handshake {
                node_id: handshake.node_id,
                node_tag: handshake.node_tag@,
                token: handshake.token@,
                client_type: handshake.client_type,
                trace_id: handshake.trace_id@,
                nodes: node_models(handshake.nodes@),
            },
            SessionEvent::HandshakeAck(ack) => EventModel::HandshakeAck {
                node_id: ack.node_id,
                node_tag: ack.node_tag@,
            },
            SessionEvent::Ping(ping) => EventModel::Ping(ping),
            SessionEvent::Pong(pong) => EventModel::Pong(pong),
            SessionEvent::Message(message) => EventModel::Message {
                handler_name: message.handler_name@,
                correlation: message.correlation,
                recipient: message.recipient@,
                payload: message.payload@,
                trace_id: message.trace_id@,
            },
            SessionEvent::Result(result) => EventModel::Result {
                correlation: result.correlation,
                payload: result.payload@,
            },
        }
    }
}

pub open spec fn client_type_byte(client_type: ClientType) -> u8 {
    match client_type {
        ClientType::Client => 0,
        ClientType::Worker => 1,
    }
}

pub open spec fn parse_client_type(bytes: Seq<u8>) -> Option<(ClientType, Seq<u8>)> {
    match parse_u8(bytes) {
        Some((byte, rest)) => if byte == 0 {
            Some((ClientType::Client, rest))
        } else if byte == 1 {
            Some((ClientType::Worker, rest))
        } else {
            None
        },
        None => None,
    }
}

pub open spec fn timestamp_wire(timestamp: Timestamp) -> Seq<u8> {
    u64_wire(timestamp.seconds) + u32_wire(timestamp.nanos)
}

pub open spec fn parse_timestamp(bytes: Seq<u8>) -> Option<(Timestamp, Seq<u8>)> {
    match parse_u64(bytes) {
        Some((seconds, rest)) => match parse_u32(rest) {
            Some((nanos, rest)) => Some((Timestamp { seconds, nanos }, rest)),
            None => None,
        },
        None => None,
    }
}

/// A moment that may be unknown: one byte that tells, then the moment.
pub open spec fn started_at_wire(started_at: Option<Timestamp>) -> Seq<u8> {
    match started_at {
        Some(timestamp) => seq![1u8] + timestamp_wire(timestamp),
        None => seq![0u8],
    }
}

pub open spec fn parse_started_at(bytes: Seq<u8>) -> Option<(Option<Timestamp>, Seq<u8>)> {
    match parse_u8(bytes) {
        Some((byte, rest)) => if byte == 0 {
            Some((None, rest))
        } else if byte == 1 {
            match parse_timestamp(rest) {
                Some((timestamp, rest)) => Some((Some(timestamp), rest)),
                None => None,
            }
        } else {
            None
        },
        None => None,
    }
}

pub open spec fn heartbeat_wire(heartbeat: Heartbeat) -> Seq<u8> {
    u64_wire(heartbeat.correlation) + timestamp_wire(heartbeat.timestamp)
}

pub open spec fn parse_heartbeat(bytes: Seq<u8>) -> Option<(Heartbeat, Seq<u8>)> {
    match parse_u64(bytes) {
        Some((correlation, rest)) => match parse_timestamp(rest) {
            Some((timestamp, rest)) => Some((Heartbeat { correlation, timestamp }, rest)),
            None => None,
        },
        None => None,
    }
}

pub open spec fn node_wire(node: NodeModel) -> Seq<u8> {
    u64_wire(node.id) + (text_wire(node.addr) + (text_wire(node.tag) + started_at_wire(
        node.node_started_at,
    )))
}

#[verifier::opaque]
pub open spec fn parse_node(bytes: Seq<u8>) -> Option<(NodeModel, Seq<u8>)> {
    match parse_u64(bytes) {
        Some((id, rest)) => match parse_text(rest) {
            Some((addr, rest)) => match parse_text(rest) {
                Some((tag, rest)) => match parse_started_at(rest) {
                    Some((node_started_at, rest)) => Some(
                        (NodeModel { id, addr, tag, node_started_at }, rest),
                    ),
                    None => None,
                },
                None => None,
            },
            None => None,
        },
        None => None,
    }
}

pub open spec fn node_fits(node: NodeModel) -> bool {
    text_fits(node.addr) && text_fits(node.tag)
}

/// Nodes, one behind the other.
pub open spec fn nodes_wire(nodes: Seq<NodeModel>) -> Seq<u8>
    decreases nodes.len(),
{
    if nodes.len() == 0 {
        Seq::empty()
    } else {
        node_wire(nodes[0]) + nodes_wire(nodes.skip(1))
    }
}

/// `count` nodes off the front.
pub open spec fn parse_nodes(bytes: Seq<u8>, count: nat) -> Option<(Seq<NodeModel>, Seq<u8>)>
    decreases count,
{
    if count == 0 {
        Some((Seq::empty(), bytes))
    } else {
        match parse_node(bytes) {
            Some((node, rest)) => match parse_nodes(rest, (count - 1) as nat) {
                Some((more, rest)) => Some((seq![node] + more, rest)),
                None => None,
            },
            None => None,
        }
    }
}

/// A list of nodes behind the number of its nodes.
pub open spec fn node_list_wire(nodes: Seq<NodeModel>) -> Seq<u8> {
    u32_wire(nodes.len() as u32) + nodes_wire(nodes)
}

pub open spec fn parse_node_list(bytes: Seq<u8>) -> Option<(Seq<NodeModel>, Seq<u8>)> {
    match parse_u32(bytes) {
        Some((count, rest)) => parse_nodes(rest, count as nat),
        None => None,
    }
}

pub open spec fn node_list_fits(nodes: Seq<NodeModel>) -> bool {
    nodes.len() <= u32::MAX && forall|i: int| 0 <= i < nodes.len() ==> node_fits(#[trigger] nodes[i])
}

/// The byte that tells the kind of an event.
pub open spec fn kind_byte(event: EventModel) -> u8 {
    match event {
        EventModel::Handshake { .. } => 0,
        EventModel::HandshakeAck { .. } => 1,
        EventModel::Ping(_) => 2,
        EventModel::Pong(_) => 3,
        EventModel::Message { .. } => 4,
        EventModel::Result { .. } => 5,
    }
}

/// The fields of an event as bytes.
pub open spec fn fields_wire(event: EventModel) -> Seq<u8> {
    match event {
        EventModel::Handshake { node_id, node_tag, token, client_type, trace_id, nodes } => {
            u64_wire(node_id) + (text_wire(node_tag) + (blob_wire(token) + (seq![
                client_type_byte(client_type),
            ] + (text_wire(trace_id) + node_list_wire(nodes)))))
        },
        EventModel::HandshakeAck { node_id, node_tag } => u64_wire(node_id) + text_wire(node_tag),
        EventModel::Ping(ping) => heartbeat_wire(ping),
        EventModel::Pong(pong) => heartbeat_wire(pong),
        EventModel::Message { handler_name, correlation, recipient, payload, trace_id } => {
            text_wire(handler_name) + (u128_wire(correlation) + (text_wire(recipient) + (blob_wire(
                payload,
            ) + text_wire(trace_id))))
        },
        EventModel::Result { correlation, payload } => u128_wire(correlation) + blob_wire(payload),
    }
}

/// The bytes of the frame that carries `event`.
pub open spec fn event_wire(event: EventModel) -> Seq<u8> {
    seq![kind_byte(event)] + fields_wire(event)
}

/// Whether an event can be written: every text, byte string and list in it
/// is short enough to stand behind its length.
pub open spec fn event_fits(event: EventModel) -> bool {
    match event {
        EventModel::Handshake { node_tag, token, trace_id, nodes, .. } => text_fits(node_tag)
            && blob_fits(token) && text_fits(trace_id) && node_list_fits(nodes),
        EventModel::HandshakeAck { node_tag, .. } => text_fits(node_tag),
        EventModel::Ping(_) => true,
        EventModel::Pong(_) => true,
        EventModel::Message { handler_name, recipient, payload, trace_id, .. } => text_fits(
            handler_name,
        ) && text_fits(recipient) && blob_fits(payload) && text_fits(trace_id),
        EventModel::Result { payload, .. } => blob_fits(payload),
    }
}

pub open spec fn parse_handshake(bytes: Seq<u8>) -> Option<(EventModel, Seq<u8>)> {
    match parse_u64(bytes) {
        Some((node_id, rest)) => match parse_text(rest) {
            Some((node_tag, rest)) => match parse_blob(rest) {
                Some((token, rest)) => match parse_client_type(rest) {
                    Some((client_type, rest)) => match parse_text(rest) {
                        Some((trace_id, rest)) => match parse_node_list(rest) {
                            Some((nodes, rest)) => Some(
                                (
                                    EventModel::Handshake {
                                        node_id,
                                        node_tag,
                                        token,
                                        client_type,
                                        trace_id,
                                        nodes,
                                    },
                                    rest,
                                ),
                            ),
                            None => None,
                        },
                        None => None,
                    },
                    None => None,
                },
                None => None,
            },
            None => None,
        },
        None => None,
    }
}

pub open spec fn parse_handshake_ack(bytes: Seq<u8>) -> Option<(EventModel, Seq<u8>)> {
    match parse_u64(bytes) {
        Some((node_id, rest)) => match parse_text(rest) {
            Some((node_tag, rest)) => Some((EventModel::HandshakeAck { node_id, node_tag }, rest)),
            None => None,
        },
        None => None,
    }
}

pub open spec fn parse_message(bytes: Seq<u8>) -> Option<(EventModel, Seq<u8>)> {
    match parse_text(bytes) {
        Some((handler_name, rest)) => match parse_u128(rest) {
            Some((correlation, rest)) => match parse_text(rest) {
                Some((recipient, rest)) => match parse_blob(rest) {
                    Some((payload, rest)) => match parse_text(rest) {
                        Some((trace_id, rest)) => Some(
                            (
                                EventModel::Message {
                                    handler_name,
                                    correlation,
                                    recipient,
                                    payload,
                                    trace_id,
                                },
                                rest,
                            ),
                        ),
                        None => None,
                    },
                    None => None,
                },
                None => None,
            },
            None => None,
        },
        None => None,
    }
}

pub open spec fn parse_result(bytes: Seq<u8>) -> Option<(EventModel, Seq<u8>)> {
    match parse_u128(bytes) {
        Some((correlation, rest)) => match parse_blob(rest) {
            Some((payload, rest)) => Some((EventModel::Result { correlation, payload }, rest)),
            None => None,
        },
        None => None,
    }
}

/// The fields of an event of the kind that `kind` tells, off the front.
pub open spec fn parse_fields(kind: u8, bytes: Seq<u8>) -> Option<(EventModel, Seq<u8>)> {
    if kind == 0 {
        parse_handshake(bytes)
    } else if kind == 1 {
        parse_handshake_ack(bytes)
    } else if kind == 2 {
        match parse_heartbeat(bytes) {
            Some((ping, rest)) => Some((EventModel::Ping(ping), rest)),
            None => None,
        }
    } else if kind == 3 {
        match parse_heartbeat(bytes) {
            Some((pong, rest)) => Some((EventModel::Pong(pong), rest)),
            None => None,
        }
    } else if kind == 4 {
        parse_message(bytes)
    } else if kind == 5 {
        parse_result(bytes)
    } else {
        None
    }
}

/// The event that `bytes` carry, where they are the bytes of one frame and
/// nothing else.
pub open spec fn parse_event(bytes: Seq<u8>) -> Option<EventModel> {
    match parse_u8(bytes) {
        Some((kind, rest)) => match parse_fields(kind, rest) {
            Some((event, rest)) => if rest.len() == 0 {
                Some(event)
            } else {
                None
            },
            None => None,
        },
        None => None,
    }
}

/// What reading `data` gives: the one event whose bytes `data` are, and
/// `None` where `data` are the bytes of no event.
pub open spec fn read_as(data: Seq<u8>, event: Option<SessionEvent>) -> bool {
    match event {
        Some(event) => {
            &&& event_fits(event@)
            &&& data == event_wire(event@)
            &&& parse_event(data) == Some(event@)
        },
        None => {
            &&& parse_event(data) is None
            &&& forall|written: EventModel|
                event_fits(written) ==> #[trigger] event_wire(written) != data
        },
    }
}

pub proof fn lemma_client_type_round_trip(client_type: ClientType, rest: Seq<u8>)
    ensures
        parse_client_type(seq![client_type_byte(client_type)] + rest) == Some((client_type, rest)),
{
    lemma_u8_round_trip(client_type_byte(client_type), rest);
}

pub proof fn lemma_timestamp_round_trip(timestamp: Timestamp, rest: Seq<u8>)
    ensures
        parse_timestamp(timestamp_wire(timestamp) + rest) == Some((timestamp, rest)),
{
    let behind = u32_wire(timestamp.nanos) + rest;
    assert(timestamp_wire(timestamp) + rest =~= u64_wire(timestamp.seconds) + behind);
    lemma_u64_round_trip(timestamp.seconds, behind);
    lemma_u32_round_trip(timestamp.nanos, rest);
}

pub proof fn lemma_started_at_round_trip(started_at: Option<Timestamp>, rest: Seq<u8>)
    ensures
        parse_started_at(started_at_wire(started_at) + rest) == Some((started_at, rest)),
{
    match started_at {
        Some(timestamp) => {
            let behind = timestamp_wire(timestamp) + rest;
            assert(started_at_wire(started_at) + rest =~= seq![1u8] + behind);
            lemma_u8_round_trip(1, behind);
            lemma_timestamp_round_trip(timestamp, rest);
        },
        None => {
            lemma_u8_round_trip(0, rest);
        },
    }
}

pub proof fn lemma_heartbeat_round_trip(heartbeat: Heartbeat, rest: Seq<u8>)
    ensures
        parse_heartbeat(heartbeat_wire(heartbeat) + rest) == Some((heartbeat, rest)),
{
    let behind = timestamp_wire(heartbeat.timestamp) + rest;
    assert(heartbeat_wire(heartbeat) + rest =~= u64_wire(heartbeat.correlation) + behind);
    lemma_u64_round_trip(heartbeat.correlation, behind);
    lemma_timestamp_round_trip(heartbeat.timestamp, rest);
}

pub proof fn lemma_node_round_trip(node: NodeModel, rest: Seq<u8>)
    requires
        node_fits(node),
    ensures
        parse_node(node_wire(node) + rest) == Some((node, rest)),
{
    reveal(parse_node);
    let behind_tag = started_at_wire(node.node_started_at) + rest;
    let behind_addr = text_wire(node.tag) + behind_tag;
    let behind_id = text_wire(node.addr) + behind_addr;
    assert(node_wire(node) + rest =~= u64_wire(node.id) + behind_id);
    lemma_u64_round_trip(node.id, behind_id);
    lemma_text_round_trip(node.addr, behind_addr);
    lemma_text_round_trip(node.tag, behind_tag);
    lemma_started_at_round_trip(node.node_started_at, rest);
}

pub proof fn lemma_nodes_round_trip(nodes: Seq<NodeModel>, rest: Seq<u8>)
    requires
        forall|i: int| 0 <= i < nodes.len() ==> node_fits(#[trigger] nodes[i]),
    ensures
        parse_nodes(nodes_wire(nodes) + rest, nodes.len()) == Some((nodes, rest)),
    decreases nodes.len(),
{
    if nodes.len() == 0 {
        assert(nodes_wire(nodes) + rest =~= rest);
        assert(nodes =~= Seq::empty());
    } else {
        let first = nodes[0];
        let others = nodes.skip(1);
        let behind = nodes_wire(others) + rest;
        assert(node_fits(first));
        assert(nodes_wire(nodes) + rest == node_wire(first) + behind) by {
            lemma_concat_assoc(node_wire(first), nodes_wire(others), rest);
        }
        assert(parse_node(node_wire(first) + behind) == Some((first, behind))) by {
            lemma_node_round_trip(first, behind);
        }
        assert(parse_nodes(behind, others.len()) == Some((others, rest))) by {
            assert forall|i: int| 0 <= i < others.len() implies node_fits(
                #[trigger] others[i],
            ) by {
                assert(others[i] == nodes[i + 1]);
            }
            lemma_nodes_round_trip(others, rest);
        }
        assert(seq![first] + others =~= nodes);
        assert((nodes.len() - 1) as nat == others.len());
    }
}

pub proof fn lemma_node_list_round_trip(nodes: Seq<NodeModel>, rest: Seq<u8>)
    requires
        node_list_fits(nodes),
    ensures
        parse_node_list(node_list_wire(nodes) + rest) == Some((nodes, rest)),
{
    let behind = nodes_wire(nodes) + rest;
    assert(node_list_wire(nodes) + rest =~= u32_wire(nodes.len() as u32) + behind);
    lemma_u32_round_trip(nodes.len() as u32, behind);
    lemma_nodes_round_trip(nodes, rest);
}

pub proof fn lemma_client_type_inverse(bytes: Seq<u8>)
    ensures
        parse_client_type(bytes) matches Some((client_type, rest)) ==> bytes == seq![
            client_type_byte(client_type),
        ] + rest,
{
    lemma_u8_inverse(bytes);
}

pub proof fn lemma_timestamp_inverse(bytes: Seq<u8>)
    ensures
        parse_timestamp(bytes) matches Some((timestamp, rest)) ==> bytes == timestamp_wire(
            timestamp,
        ) + rest,
{
    if let Some((timestamp, rest)) = parse_timestamp(bytes) {
        lemma_u64_inverse(bytes);
        let (seconds, behind) = parse_u64(bytes)->Some_0;
        lemma_u32_inverse(behind);
        lemma_concat_assoc(u64_wire(seconds), u32_wire(timestamp.nanos), rest);
    }
}

pub proof fn lemma_started_at_inverse(bytes: Seq<u8>)
    ensures
        parse_started_at(bytes) matches Some((started_at, rest)) ==> bytes == started_at_wire(
            started_at,
        ) + rest,
{
    if let Some((started_at, rest)) = parse_started_at(bytes) {
        lemma_u8_inverse(bytes);
        let (byte, behind) = parse_u8(bytes)->Some_0;
        if let Some(timestamp) = started_at {
            lemma_timestamp_inverse(behind);
            lemma_concat_assoc(seq![1u8], timestamp_wire(timestamp), rest);
        }
    }
}

pub proof fn lemma_heartbeat_inverse(bytes: Seq<u8>)
    ensures
        parse_heartbeat(bytes) matches Some((heartbeat, rest)) ==> bytes == heartbeat_wire(
            heartbeat,
        ) + rest,
{
    if let Some((heartbeat, rest)) = parse_heartbeat(bytes) {
        lemma_u64_inverse(bytes);
        let (correlation, behind) = parse_u64(bytes)->Some_0;
        lemma_timestamp_inverse(behind);
        lemma_concat_assoc(u64_wire(correlation), timestamp_wire(heartbeat.timestamp), rest);
    }
}

pub proof fn lemma_node_inverse(bytes: Seq<u8>)
    ensures
        parse_node(bytes) matches Some((node, rest)) ==> node_fits(node) && bytes == node_wire(node)
            + rest,
{
    reveal(parse_node);
    if let Some((node, rest)) = parse_node(bytes) {
        lemma_u64_inverse(bytes);
        let (id, behind_id) = parse_u64(bytes)->Some_0;
        lemma_text_inverse(behind_id);
        let (addr, behind_addr) = parse_text(behind_id)->Some_0;
        lemma_text_inverse(behind_addr);
        let (tag, behind_tag) = parse_text(behind_addr)->Some_0;
        lemma_started_at_inverse(behind_tag);
        assert(bytes =~= node_wire(node) + rest);
    }
}

pub proof fn lemma_nodes_inverse(bytes: Seq<u8>, count: nat)
    ensures
        parse_nodes(bytes, count) matches Some((nodes, rest)) ==> {
            &&& nodes.len() == count
            &&& forall|i: int| 0 <= i < nodes.len() ==> node_fits(#[trigger] nodes[i])
            &&& bytes == nodes_wire(nodes) + rest
        },
    decreases count,
{
    if let Some((nodes, rest)) = parse_nodes(bytes, count) {
        if count == 0 {
            assert(bytes =~= nodes_wire(nodes) + rest);
        } else {
            lemma_node_inverse(bytes);
            let (first, behind) = parse_node(bytes)->Some_0;
            lemma_nodes_inverse(behind, (count - 1) as nat);
            let (others, end) = parse_nodes(behind, (count - 1) as nat)->Some_0;
            assert(nodes == seq![first] + others);
            assert(nodes.skip(1) =~= others);
            assert forall|i: int| 0 <= i < nodes.len() implies node_fits(#[trigger] nodes[i]) by {
                if i > 0 {
                    assert(nodes[i] == others[i - 1]);
                }
            }
            assert(nodes_wire(nodes) == node_wire(first) + nodes_wire(others));
            lemma_concat_assoc(node_wire(first), nodes_wire(others), rest);
        }
    }
}

pub proof fn lemma_node_list_inverse(bytes: Seq<u8>)
    ensures
        parse_node_list(bytes) matches Some((nodes, rest)) ==> node_list_fits(nodes) && bytes
            == node_list_wire(nodes) + rest,
{
    if let Some((nodes, rest)) = parse_node_list(bytes) {
        lemma_u32_inverse(bytes);
        let (count, behind) = parse_u32(bytes)->Some_0;
        lemma_nodes_inverse(behind, count as nat);
        lemma_concat_assoc(u32_wire(count), nodes_wire(nodes), rest);
    }
}

pub proof fn lemma_handshake_inverse(bytes: Seq<u8>)
    ensures
        parse_handshake(bytes) matches Some((event, rest)) ==> {
            &&& kind_byte(event) == 0
            &&& event_fits(event)
            &&& bytes == fields_wire(event) + rest
        },
{
    if let Some((event, rest)) = parse_handshake(bytes) {
        lemma_u64_inverse(bytes);
        let behind_id = parse_u64(bytes)->Some_0.1;
        lemma_text_inverse(behind_id);
        let behind_tag = parse_text(behind_id)->Some_0.1;
        lemma_blob_inverse(behind_tag);
        let behind_token = parse_blob(behind_tag)->Some_0.1;
        lemma_client_type_inverse(behind_token);
        let behind_type = parse_client_type(behind_token)->Some_0.1;
        lemma_text_inverse(behind_type);
        let behind_trace = parse_text(behind_type)->Some_0.1;
        lemma_node_list_inverse(behind_trace);
        assert(bytes =~= fields_wire(event) + rest);
    }
}

pub proof fn lemma_handshake_ack_inverse(bytes: Seq<u8>)
    ensures
        parse_handshake_ack(bytes) matches Some((event, rest)) ==> {
            &&& kind_byte(event) == 1
            &&& event_fits(event)
            &&& bytes == fields_wire(event) + rest
        },
{
    if let Some((event, rest)) = parse_handshake_ack(bytes) {
        lemma_u64_inverse(bytes);
        let behind_id = parse_u64(bytes)->Some_0.1;
        lemma_text_inverse(behind_id);
        assert(bytes =~= fields_wire(event) + rest);
    }
}

pub proof fn lemma_message_inverse(bytes: Seq<u8>)
    ensures
        parse_message(bytes) matches Some((event, rest)) ==> {
            &&& kind_byte(event) == 4
            &&& event_fits(event)
            &&& bytes == fields_wire(event) + rest
        },
{
    if let Some((event, rest)) = parse_message(bytes) {
        lemma_text_inverse(bytes);
        let behind_name = parse_text(bytes)->Some_0.1;
        lemma_u128_inverse(behind_name);
        let behind_correlation = parse_u128(behind_name)->Some_0.1;
        lemma_text_inverse(behind_correlation);
        let behind_recipient = parse_text(behind_correlation)->Some_0.1;
        lemma_blob_inverse(behind_recipient);
        let behind_payload = parse_blob(behind_recipient)->Some_0.1;
        lemma_text_inverse(behind_payload);
        assert(bytes =~= fields_wire(event) + rest);
    }
}

pub proof fn lemma_result_inverse(bytes: Seq<u8>)
    ensures
        parse_result(bytes) matches Some((event, rest)) ==> {
            &&& kind_byte(event) == 5
            &&& event_fits(event)
            &&& bytes == fields_wire(event) + rest
        },
{
    if let Some((event, rest)) = parse_result(bytes) {
        lemma_u128_inverse(bytes);
        let behind_correlation = parse_u128(bytes)->Some_0.1;
        lemma_blob_inverse(behind_correlation);
        assert(bytes =~= fields_wire(event) + rest);
    }
}

/// What is read as the fields of an event was written as the fields of that
/// event.
pub proof fn lemma_fields_inverse(kind: u8, bytes: Seq<u8>)
    ensures
        parse_fields(kind, bytes) matches Some((event, rest)) ==> {
            &&& kind == kind_byte(event)
            &&& event_fits(event)
            &&& bytes == fields_wire(event) + rest
        },
{
    lemma_handshake_inverse(bytes);
    lemma_handshake_ack_inverse(bytes);
    lemma_heartbeat_inverse(bytes);
    lemma_message_inverse(bytes);
    lemma_result_inverse(bytes);
}

/// No two events that can be written have the same bytes.
pub proof fn lemma_event_wire_injective(a: EventModel, b: EventModel)
    requires
        event_fits(a),
        event_fits(b),
        event_wire(a) == event_wire(b),
    ensures
        a == b,
{
    lemma_event_round_trip(a);
    lemma_event_round_trip(b);
}

/// Nothing is read as an event but the bytes that writing the event gives.
pub proof fn lemma_event_inverse(bytes: Seq<u8>)
    ensures
        parse_event(bytes) matches Some(event) ==> event_fits(event) && bytes == event_wire(event),
{
    if let Some(event) = parse_event(bytes) {
        lemma_u8_inverse(bytes);
        let (kind, behind) = parse_u8(bytes)->Some_0;
        lemma_fields_inverse(kind, behind);
        let rest = parse_fields(kind, behind)->Some_0.1;
        assert(fields_wire(event) + rest =~= fields_wire(event));
    }
}

/// Bytes in a row are the same however they are grouped.
pub proof fn lemma_concat_assoc(a: Seq<u8>, b: Seq<u8>, c: Seq<u8>)
    ensures
        (a + b) + c == a + (b + c),
{
    assert((a + b) + c =~= a + (b + c));
}

/// One more node at the end of a row of nodes.
pub proof fn lemma_nodes_wire_push(nodes: Seq<NodeModel>, node: NodeModel)
    ensures
        nodes_wire(nodes.push(node)) == nodes_wire(nodes) + node_wire(node),
    decreases nodes.len(),
{
    let more = nodes.push(node);
    assert(nodes_wire(more) == node_wire(more[0]) + nodes_wire(more.skip(1)));
    if nodes.len() == 0 {
        assert(more.skip(1) =~= Seq::<NodeModel>::empty());
        assert(nodes_wire(more.skip(1)) =~= Seq::<u8>::empty());
        assert(nodes_wire(nodes) =~= Seq::<u8>::empty());
        assert(node_wire(node) + Seq::<u8>::empty() =~= Seq::<u8>::empty() + node_wire(node));
    } else {
        let others = nodes.skip(1);
        lemma_nodes_wire_push(others, node);
        assert(more.skip(1) =~= others.push(node));
        assert(nodes_wire(nodes) == node_wire(nodes[0]) + nodes_wire(others));
        lemma_concat_assoc(node_wire(nodes[0]), nodes_wire(others), node_wire(node));
    }
}

/// Reading gives back what was written: the bytes of every event that can be
/// written are read as that event.
pub proof fn lemma_event_round_trip(event: EventModel)
    requires
        event_fits(event),
    ensures
        parse_event(event_wire(event)) == Some(event),
{
    let fields = fields_wire(event);
    let none = Seq::<u8>::empty();
    lemma_u8_round_trip(kind_byte(event), fields);
    assert(fields + none =~= fields);
    match event {
        EventModel::Handshake { node_id, node_tag, token, client_type, trace_id, nodes } => {
            let behind_trace = node_list_wire(nodes) + none;
            let behind_type = text_wire(trace_id) + behind_trace;
            let behind_token = seq![client_type_byte(client_type)] + behind_type;
            let behind_tag = blob_wire(token) + behind_token;
            let behind_id = text_wire(node_tag) + behind_tag;
            assert(fields =~= u64_wire(node_id) + behind_id);
            lemma_u64_round_trip(node_id, behind_id);
            lemma_text_round_trip(node_tag, behind_tag);
            lemma_blob_round_trip(token, behind_token);
            lemma_client_type_round_trip(client_type, behind_type);
            lemma_text_round_trip(trace_id, behind_trace);
            lemma_node_list_round_trip(nodes, none);
        },
        EventModel::HandshakeAck { node_id, node_tag } => {
            let behind_id = text_wire(node_tag) + none;
            assert(fields =~= u64_wire(node_id) + behind_id);
            lemma_u64_round_trip(node_id, behind_id);
            lemma_text_round_trip(node_tag, none);
        },
        EventModel::Ping(ping) => {
            lemma_heartbeat_round_trip(ping, none);
        },
        EventModel::Pong(pong) => {
            lemma_heartbeat_round_trip(pong, none);
        },
        EventModel::Message { handler_name, correlation, recipient, payload, trace_id } => {
            let behind_payload = text_wire(trace_id) + none;
            let behind_recipient = blob_wire(payload) + behind_payload;
            let behind_correlation = text_wire(recipient) + behind_recipient;
            let behind_name = u128_wire(correlation) + behind_correlation;
            assert(fields =~= text_wire(handler_name) + behind_name);
            lemma_text_round_trip(handler_name, behind_name);
            lemma_u128_round_trip(correlation, behind_correlation);
            lemma_text_round_trip(recipient, behind_recipient);
            lemma_blob_round_trip(payload, behind_payload);
            lemma_text_round_trip(trace_id, none);
        },
        EventModel::Result { correlation, payload } => {
            let behind_correlation = blob_wire(payload) + none;
            assert(fields =~= u128_wire(correlation) + behind_correlation);
            lemma_u128_round_trip(correlation, behind_correlation);
            lemma_blob_round_trip(payload, none);
        },
    }
}

fn put_client_type(out: &mut Vec<u8>, client_type: ClientType)
    ensures
        final(out)@ == old(out)@ + seq![client_type_byte(client_type)],
{
    match client_type {
        ClientType::Client => put_u8(out, 0),
        ClientType::Worker => put_u8(out, 1),
    }
}

fn put_timestamp(out: &mut Vec<u8>, timestamp: Timestamp)
    ensures
        final(out)@ == old(out)@ + timestamp_wire(timestamp),
{
    put_u64(out, timestamp.seconds);
    put_u32(out, timestamp.nanos);
    proof {
        lemma_concat_assoc(old(out)@, u64_wire(timestamp.seconds), u32_wire(timestamp.nanos));
    }
}

fn put_started_at(out: &mut Vec<u8>, started_at: Option<Timestamp>)
    ensures
        final(out)@ == old(out)@ + started_at_wire(started_at),
{
    match started_at {
        Some(timestamp) => {
            put_u8(out, 1);
            put_timestamp(out, timestamp);
            proof {
                lemma_concat_assoc(old(out)@, seq![1u8], timestamp_wire(timestamp));
            }
        },
        None => {
            put_u8(out, 0);
        },
    }
}

fn put_heartbeat(out: &mut Vec<u8>, heartbeat: Heartbeat)
    ensures
        final(out)@ == old(out)@ + heartbeat_wire(heartbeat),
{
    put_u64(out, heartbeat.correlation);
    put_timestamp(out, heartbeat.timestamp);
    proof {
        lemma_concat_assoc(
            old(out)@,
            u64_wire(heartbeat.correlation),
            timestamp_wire(heartbeat.timestamp),
        );
    }
}

fn put_node(out: &mut Vec<u8>, node: &RemoteNode) -> (done: bool)
    ensures
        done == node_fits(node@),
        done ==> final(out)@ == old(out)@ + node_wire(node@),
{
    put_u64(out, node.id);
    if !put_text(out, &node.addr) {
        return false;
    }
    if !put_text(out, &node.tag) {
        return false;
    }
    put_started_at(out, node.node_started_at);
    assert(out@ =~= old(out)@ + node_wire(node@));
    true
}

fn put_node_list(out: &mut Vec<u8>, nodes: &Vec<RemoteNode>) -> (done: bool)
    ensures
        done == node_list_fits(node_models(nodes@)),
        done ==> final(out)@ == old(out)@ + node_list_wire(node_models(nodes@)),
{
    let ghost models = node_models(nodes@);
    if nodes.len() > u32::MAX as usize {
        return false;
    }
    put_u32(out, nodes.len() as u32);
    let ghost before = out@;
    let mut i: usize = 0;
    while i < nodes.len()
        invariant
            i <= nodes.len(),
            models == node_models(nodes@),
            out@ == before + nodes_wire(models.take(i as int)),
            forall|k: int| 0 <= k < i ==> node_fits(#[trigger] models[k]),
        decreases nodes.len() - i,
    {
        proof {
            assert(models[i as int] == nodes@[i as int]@);
            assert(models.take(i as int + 1) =~= models.take(i as int).push(models[i as int]));
            lemma_nodes_wire_push(models.take(i as int), models[i as int]);
            lemma_concat_assoc(
                before,
                nodes_wire(models.take(i as int)),
                node_wire(models[i as int]),
            );
        }
        if !put_node(out, &nodes[i]) {
            return false;
        }
        i += 1;
    }
    proof {
        assert(models.take(i as int) =~= models);
        lemma_concat_assoc(old(out)@, u32_wire(nodes.len() as u32), nodes_wire(models));
    }
    true
}

fn take_client_type(bytes: &[u8], at: usize) -> (field: Option<(ClientType, usize)>)
    requires
        at <= bytes@.len(),
    ensures
        match field {
            Some((value, next)) => at <= next <= bytes@.len() && parse_client_type(
                bytes@.skip(at as int),
            ) == Some((value, bytes@.skip(next as int))),
            None => parse_client_type(bytes@.skip(at as int)) is None,
        },
{
    let (byte, next) = take_u8(bytes, at)?;
    if byte == 0 {
        Some((ClientType::Client, next))
    } else if byte == 1 {
        Some((ClientType::Worker, next))
    } else {
        None
    }
}

fn take_timestamp(bytes: &[u8], at: usize) -> (field: Option<(Timestamp, usize)>)
    requires
        at <= bytes@.len(),
    ensures
        match field {
            Some((value, next)) => at <= next <= bytes@.len() && parse_timestamp(
                bytes@.skip(at as int),
            ) == Some((value, bytes@.skip(next as int))),
            None => parse_timestamp(bytes@.skip(at as int)) is None,
        },
{
    let (seconds, next) = take_u64(bytes, at)?;
    let (nanos, next) = take_u32(bytes, next)?;
    Some((Timestamp { seconds, nanos }, next))
}

fn take_started_at(bytes: &[u8], at: usize) -> (field: Option<(Option<Timestamp>, usize)>)
    requires
        at <= bytes@.len(),
    ensures
        match field {
            Some((value, next)) => at <= next <= bytes@.len() && parse_started_at(
                bytes@.skip(at as int),
            ) == Some((value, bytes@.skip(next as int))),
            None => parse_started_at(bytes@.skip(at as int)) is None,
        },
{
    let (byte, next) = take_u8(bytes, at)?;
    if byte == 0 {
        Some((None, next))
    } else if byte == 1 {
        let (timestamp, next) = take_timestamp(bytes, next)?;
        Some((Some(timestamp), next))
    } else {
        None
    }
}

fn take_heartbeat(bytes: &[u8], at: usize) -> (field: Option<(Heartbeat, usize)>)
    requires
        at <= bytes@.len(),
    ensures
        match field {
            Some((value, next)) => at <= next <= bytes@.len() && parse_heartbeat(
                bytes@.skip(at as int),
            ) == Some((value, bytes@.skip(next as int))),
            None => parse_heartbeat(bytes@.skip(at as int)) is None,
        },
{
    let (correlation, next) = take_u64(bytes, at)?;
    let (timestamp, next) = take_timestamp(bytes, next)?;
    Some((Heartbeat { correlation, timestamp }, next))
}

fn take_node(bytes: &[u8], at: usize) -> (field: Option<(RemoteNode, usize)>)
    requires
        at <= bytes@.len(),
    ensures
        match field {
            Some((value, next)) => at <= next <= bytes@.len() && parse_node(
                bytes@.skip(at as int),
            ) == Some((value@, bytes@.skip(next as int))),
            None => parse_node(bytes@.skip(at as int)) is None,
        },
{
    proof {
        reveal(parse_node);
    }
    let (id, next) = take_u64(bytes, at)?;
    let (addr, next) = take_text(bytes, next)?;
    let (tag, next) = take_text(bytes, next)?;
    let (node_started_at, next) = take_started_at(bytes, next)?;
    Some((RemoteNode::described(id, addr, tag, node_started_at), next))
}

/// What reading a row of nodes gives, with the nodes read before it in front.
spec fn behind(read: Seq<NodeModel>, more: Option<(Seq<NodeModel>, Seq<u8>)>) -> Option<
    (Seq<NodeModel>, Seq<u8>),
> {
    match more {
        Some((nodes, rest)) => Some((read + nodes, rest)),
        None => None,
    }
}

fn take_nodes(bytes: &[u8], at: usize, count: u32) -> (field: Option<(Vec<RemoteNode>, usize)>)
    requires
        at <= bytes@.len(),
    ensures
        match field {
            Some((value, next)) => at <= next <= bytes@.len() && parse_nodes(
                bytes@.skip(at as int),
                count as nat,
            ) == Some((node_models(value@), bytes@.skip(next as int))),
            None => parse_nodes(bytes@.skip(at as int), count as nat) is None,
        },
{
    let ghost whole = parse_nodes(bytes@.skip(at as int), count as nat);
    let mut nodes: Vec<RemoteNode> = Vec::new();
    let mut next = at;
    let mut i: u32 = 0;
    proof {
        let start = parse_nodes(bytes@.skip(at as int), count as nat);
        if let Some((all, rest)) = start {
            assert(node_models(nodes@) + all =~= all);
        }
    }
    while i < count
        invariant
            i <= count,
            at <= next <= bytes@.len(),
            whole == parse_nodes(bytes@.skip(at as int), count as nat),
            whole == behind(
                node_models(nodes@),
                parse_nodes(bytes@.skip(next as int), (count - i) as nat),
            ),
        decreases count - i,
    {
        let ghost read = node_models(nodes@);
        let ghost left = (count - i) as nat;
        let ghost here = bytes@.skip(next as int);
        match take_node(bytes, next) {
            Some((node, after)) => {
                proof {
                    let there = bytes@.skip(after as int);
                    let more = parse_nodes(there, (left - 1) as nat);
                    assert(parse_node(here) == Some((node@, there)));
                    assert(node_models(nodes@.push(node)) =~= read.push(node@));
                    match more {
                        Some((others, rest)) => {
                            assert(parse_nodes(here, left) == Some((seq![node@] + others, rest)));
                            assert(read + (seq![node@] + others) =~= read.push(node@) + others);
                        },
                        None => {
                            assert(parse_nodes(here, left) is None);
                        },
                    }
                }
                nodes.push(node);
                next = after;
                i += 1;
            },
            None => {
                assert(parse_nodes(here, left) is None);
                return None;
            },
        }
    }
    proof {
        assert(node_models(nodes@) + Seq::<NodeModel>::empty() =~= node_models(nodes@));
    }
    Some((nodes, next))
}

fn take_node_list(bytes: &[u8], at: usize) -> (field: Option<(Vec<RemoteNode>, usize)>)
    requires
        at <= bytes@.len(),
    ensures
        match field {
            Some((value, next)) => at <= next <= bytes@.len() && parse_node_list(
                bytes@.skip(at as int),
            ) == Some((node_models(value@), bytes@.skip(next as int))),
            None => parse_node_list(bytes@.skip(at as int)) is None,
        },
{
    let (count, next) = take_u32(bytes, at)?;
    take_nodes(bytes, next, count)
}

fn take_handshake(bytes: &[u8], at: usize) -> (field: Option<(SessionEvent, usize)>)
    requires
        at <= bytes@.len(),
    ensures
        match field {
            Some((value, next)) => at <= next <= bytes@.len() && parse_handshake(
                bytes@.skip(at as int),
            ) == Some((value@, bytes@.skip(next as int))),
            None => parse_handshake(bytes@.skip(at as int)) is None,
        },
{
    let (node_id, next) = take_u64(bytes, at)?;
    let (node_tag, next) = take_text(bytes, next)?;
    let (token, next) = take_blob(bytes, next)?;
    let (client_type, next) = take_client_type(bytes, next)?;
    let (trace_id, next) = take_text(bytes, next)?;
    let (nodes, next) = take_node_list(bytes, next)?;
    Some(
        (
            SessionEvent::Handshake(
                SessionHandshake { node_id, node_tag, token, client_type, trace_id, nodes },
            ),
            next,
        ),
    )
}

fn take_handshake_ack(bytes: &[u8], at: usize) -> (field: Option<(SessionEvent, usize)>)
    requires
        at <= bytes@.len(),
    ensures
        match field {
            Some((value, next)) => at <= next <= bytes@.len() && parse_handshake_ack(
                bytes@.skip(at as int),
            ) == Some((value@, bytes@.skip(next as int))),
            None => parse_handshake_ack(bytes@.skip(at as int)) is None,
        },
{
    let (node_id, next) = take_u64(bytes, at)?;
    let (node_tag, next) = take_text(bytes, next)?;
    Some((SessionEvent::HandshakeAck(HandshakeAcknowledge { node_id, node_tag }), next))
}

fn take_message(bytes: &[u8], at: usize) -> (field: Option<(SessionEvent, usize)>)
    requires
        at <= bytes@.len(),
    ensures
        match field {
            Some((value, next)) => at <= next <= bytes@.len() && parse_message(
                bytes@.skip(at as int),
            ) == Some((value@, bytes@.skip(next as int))),
            None => parse_message(bytes@.skip(at as int)) is None,
        },
{
    let (handler_name, next) = take_text(bytes, at)?;
    let (correlation, next) = take_u128(bytes, next)?;
    let (recipient, next) = take_text(bytes, next)?;
    let (payload, next) = take_blob(bytes, next)?;
    let (trace_id, next) = take_text(bytes, next)?;
    Some(
        (
            SessionEvent::Message(
                MessageRequest { handler_name, correlation, recipient, payload, trace_id },
            ),
            next,
        ),
    )
}

fn take_result(bytes: &[u8], at: usize) -> (field: Option<(SessionEvent, usize)>)
    requires
        at <= bytes@.len(),
    ensures
        match field {
            Some((value, next)) => at <= next <= bytes@.len() && parse_result(
                bytes@.skip(at as int),
            ) == Some((value@, bytes@.skip(next as int))),
            None => parse_result(bytes@.skip(at as int)) is None,
        },
{
    let (correlation, next) = take_u128(bytes, at)?;
    let (payload, next) = take_blob(bytes, next)?;
    Some((SessionEvent::Result(ClientResult { correlation, payload }), next))
}

fn take_fields(kind: u8, bytes: &[u8], at: usize) -> (field: Option<(SessionEvent, usize)>)
    requires
        at <= bytes@.len(),
    ensures
        match field {
            Some((value, next)) => at <= next <= bytes@.len() && parse_fields(
                kind,
                bytes@.skip(at as int),
            ) == Some((value@, bytes@.skip(next as int))),
            None => parse_fields(kind, bytes@.skip(at as int)) is None,
        },
{
    if kind == 0 {
        take_handshake(bytes, at)
    } else if kind == 1 {
        take_handshake_ack(bytes, at)
    } else if kind == 2 {
        let (ping, next) = take_heartbeat(bytes, at)?;
        Some((SessionEvent::Ping(ping), next))
    } else if kind == 3 {
        let (pong, next) = take_heartbeat(bytes, at)?;
        Some((SessionEvent::Pong(pong), next))
    } else if kind == 4 {
        take_message(bytes, at)
    } else if kind == 5 {
        take_result(bytes, at)
    } else {
        None
    }
}

impl SessionEvent {
    /// The bytes of the frame that carries the event; `None` where the event
    /// cannot be written, because a text, a byte string or a list in it is
    /// too long to stand behind its length.
    pub fn encode(&self) -> (bytes: Option<Vec<u8>>)
        ensures
            match bytes {
                Some(bytes) => event_fits(self@) && bytes@ == event_wire(self@),
                None => !event_fits(self@),
            },
    {
        let mut out: Vec<u8> = Vec::new();
        let ghost kind = seq![kind_byte(self@)];
        match self {
            SessionEvent::Handshake(handshake) => {
                put_u8(&mut out, 0);
                put_u64(&mut out, handshake.node_id);
                if !put_text(&mut out, &handshake.node_tag) {
                    return None;
                }
                if !put_blob(&mut out, &handshake.token) {
                    return None;
                }
                put_client_type(&mut out, handshake.client_type);
                if !put_text(&mut out, &handshake.trace_id) {
                    return None;
                }
                if !put_node_list(&mut out, &handshake.nodes) {
                    return None;
                }
            },
            SessionEvent::HandshakeAck(ack) => {
                put_u8(&mut out, 1);
                put_u64(&mut out, ack.node_id);
                if !put_text(&mut out, &ack.node_tag) {
                    return None;
                }
            },
            SessionEvent::Ping(ping) => {
                put_u8(&mut out, 2);
                put_heartbeat(&mut out, *ping);
            },
            SessionEvent::Pong(pong) => {
                put_u8(&mut out, 3);
                put_heartbeat(&mut out, *pong);
            },
            SessionEvent::Message(message) => {
                put_u8(&mut out, 4);
                if !put_text(&mut out, &message.handler_name) {
                    return None;
                }
                put_u128(&mut out, message.correlation);
                if !put_text(&mut out, &message.recipient) {
                    return None;
                }
                if !put_blob(&mut out, &message.payload) {
                    return None;
                }
                if !put_text(&mut out, &message.trace_id) {
                    return None;
                }
            },
            SessionEvent::Result(result) => {
                put_u8(&mut out, 5);
                put_u128(&mut out, result.correlation);
                if !put_blob(&mut out, &result.payload) {
                    return None;
                }
            },
        }
        assert(out@ =~= event_wire(self@));
        Some(out)
    }

    /// The event that `data` carry; `None` where they are not the bytes of
    /// one frame.
    pub fn decode(data: &[u8]) -> (event: Option<SessionEvent>)
        ensures
            read_as(data@, event),
    {
        proof {
            assert(data@.skip(0) =~= data@);
            lemma_event_inverse(data@);
            assert forall|written: EventModel| event_fits(written) implies #[trigger] event_wire(
                written,
            ) != data@ || parse_event(data@) is Some by {
                lemma_event_round_trip(written);
            }
        }
        let (kind, next) = take_u8(data, 0)?;
        let (event, next) = take_fields(kind, data, next)?;
        if next == data.len() {
            Some(event)
        } else {
            None
        }
    }
}

impl StreamData for SessionEvent {
    fn read_from_bytes(data: Vec<u8>) -> (event: Option<SessionEvent>)
        ensures
            read_as(data@, event),
    {
        SessionEvent::decode(data.as_slice())
    }

    fn write_to_bytes(&self) -> (bytes: Option<Vec<u8>>)
        ensures
            match bytes {
                Some(bytes) => event_fits(self@) && bytes@ == event_wire(self@),
                None => !event_fits(self@),
            },
    {
        self.encode()
    }
}

} // verus!
