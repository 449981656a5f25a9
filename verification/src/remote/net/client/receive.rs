//! What arrives from the peer, and whom it is for.
//!
//! The hosting program reads frames off the session and hands each to the
//! receiver of the session, which says what the frame is: the peer's word on
//! who it is, its acknowledgement of the handshake, the reply to a request,
//! or an event for somebody else.
use crate::remote::cluster::node::RemoteNode;
use crate::remote::net::client::NodeIdentity;
use crate::remote::net::message::{
    read_as, ClientResult, HandshakeAcknowledge, SessionEvent,
};
use vstd::prelude::*;

verus! {

/// What a frame from the peer is.
#[derive(Debug)]
pub enum Received {
    /// The peer says who it is and whom it knows. This is what a dial waits
    /// for.
    Identity(NodeIdentity),
    /// The peer acknowledges the handshake. This goes to the client.
    HandshakeAcknowledge(HandshakeAcknowledge),
    /// The reply to the request that waits under the same correlation id.
    Reply(ClientResult),
    /// An event for whoever serves the peer.
    Event(SessionEvent),
    /// Bytes that are no event. They are dropped.
    Malformed,
}

/// The receiving end of the session with the peer at `addr`.
#[derive(Debug)]
pub struct ClientMessageReceiver {
    addr: String,
    identified: bool,
}

/// What `event` is to a receiver for the peer at `addr`. The first handshake
/// of a session is the peer's word on who it is; `identified` says whether
/// that word has been had.
pub open spec fn sorted(
    addr: Seq<char>,
    identified: bool,
    event: SessionEvent,
    received: Received,
) -> bool {
    match event {
        SessionEvent::Handshake(handshake) => if identified {
            received == Received::Event(event)
        } else {
            &&& received matches Received::Identity(identity)
            &&& identity.node.id == handshake.node_id
            &&& identity.node.addr@ == addr
            &&& identity.node.tag == handshake.node_tag
            &&& identity.node.node_started_at is None
            &&& identity.peers == handshake.nodes
        },
        SessionEvent::HandshakeAck(ack) => received == Received::HandshakeAcknowledge(ack),
        SessionEvent::Result(result) => received == Received::Reply(result),
        _ => received == Received::Event(event),
    }
}

impl ClientMessageReceiver {
    /// The address of the peer.
    pub closed spec fn peer(&self) -> Seq<char> {
        self.addr@
    }

    /// Whether the peer has said who it is.
    pub closed spec fn identified(&self) -> bool {
        self.identified
    }

    /// The receiver of a fresh session: the peer has not said who it is.
    pub fn new(addr: String) -> (receiver: ClientMessageReceiver)
        ensures
            receiver.peer() == addr@,
            !receiver.identified(),
    {
        ClientMessageReceiver { addr, identified: false }
    }

    /// Says what an event from the peer is.
    pub fn on_event(&mut self, event: SessionEvent) -> (received: Received)
        ensures
            sorted(old(self).peer(), old(self).identified(), event, received),
            final(self).peer() == old(self).peer(),
            final(self).identified() == (old(self).identified() || event is Handshake),
    {
        match event {
            SessionEvent::Handshake(handshake) => {
                if self.identified {
                    Received::Event(SessionEvent::Handshake(handshake))
                } else {
                    self.identified = true;
                    let node = RemoteNode::described(
                        handshake.node_id,
                        self.addr.clone(),
                        handshake.node_tag,
                        None,
                    );
                    Received::Identity(NodeIdentity { node, peers: handshake.nodes })
                }
            },
            SessionEvent::HandshakeAck(ack) => Received::HandshakeAcknowledge(ack),
            SessionEvent::Result(result) => Received::Reply(result),
            event => Received::Event(event),
        }
    }

    /// Says what a frame from the peer is: what the event is that its bytes
    /// carry, and `Malformed` where they carry none.
    pub fn on_recv(&mut self, frame: Vec<u8>) -> (received: Received)
        ensures
            final(self).peer() == old(self).peer(),
            (exists|event: SessionEvent|
                {
                    &&& #[trigger] read_as(frame@, Some(event))
                    &&& sorted(old(self).peer(), old(self).identified(), event, received)
                    &&& final(self).identified() == (old(self).identified() || event is Handshake)
                }) || {
                &&& read_as(frame@, None)
                &&& received is Malformed
                &&& final(self).identified() == old(self).identified()
            },
    {
        match SessionEvent::decode(frame.as_slice()) {
            Some(event) => {
                let ghost read = event;
                let received = self.on_event(event);
                assert(read_as(frame@, Some(read)));
                received
            },
            None => Received::Malformed,
        }
    }
}

} // verus!
