//! Dialling, the handshake and the loss of a session.
use crate::drain::take_newest_first;
use crate::remote::cluster::node::{NodeId, RemoteNode, Timestamp};
use crate::remote::net::client::{
    ClientState, ClientView, ConnectionState, HandshakeStatus, NodeIdentity, RemoteClient,
};
use crate::remote::net::message::{HandshakeAcknowledge, SessionEvent, SessionHandshake};
use vstd::prelude::*;

verus! {

/// How long to wait after the loss of a session, or after a dial that failed,
/// before dialling again.
pub const RECONNECT_DELAY_MILLIS: u64 = 1000;

/// How often a connected client pings its peer.
pub const PING_INTERVAL_MILLIS: u64 = 500;

/// Asks the client to dial its peer.
#[derive(Debug)]
pub struct Connect;

/// Tells the client that its session is gone, or that a dial failed.
#[derive(Debug)]
pub struct Disconnected;

/// Asks a connected client to open the handshake. `on_handshake_complete` is
/// fulfilled when the peer acknowledges.
#[derive(Debug)]
pub struct BeginHandshake<AckSlot> {
    pub seed_nodes: Vec<RemoteNode>,
    pub on_handshake_complete: AckSlot,
}

/// How a dial went.
#[derive(Debug)]
pub enum Dialled<Link> {
    /// No connection could be opened.
    ConnectFailed,
    /// The peer went away before it said who it is.
    IdentityMissing,
    /// The peer said who it is; `link` is what the session runs on.
    Identified { identity: NodeIdentity, link: Link },
}

/// Tells the registry which node answers at a client's address.
#[derive(Debug)]
pub struct ClientConnected {
    pub addr: String,
    pub remote_node_id: NodeId,
}

/// What is left to do once a client has taken note that it has no session.
#[derive(Debug)]
pub struct Reconnect<Link> {
    /// The session that ended, to be torn down: its receive task aborted, its
    /// ping timer cancelled, its write half dropped.
    pub closed: Option<ConnectionState<Link>>,
    /// Ask the client to `Connect` again after this many milliseconds.
    pub retry_after_millis: u64,
}

/// What is left to do once a client has taken note of a dial's outcome.
#[derive(Debug)]
pub struct ConnectReport<Link, IdSlot> {
    /// The slots of those who waited for the peer's identity, to be resolved
    /// in this order, each with `identity`.
    pub identified: Vec<IdSlot>,
    /// The peer's identity, where the dial brought one.
    pub identity: Option<NodeIdentity>,
    /// Where a session stands: what to tell the registry. The write buffer is
    /// to be flushed after that.
    pub registration: Option<ClientConnected>,
    /// Where no session stands: the retry to schedule.
    pub reconnect: Option<Reconnect<Link>>,
}

/// A received handshake acknowledgement found the client without a session.
#[derive(Clone, Copy, Debug, PartialEq, Eq, Structural)]
pub struct ProtocolViolation;

/// The session that a dial brings, if it brings one.
pub open spec fn established<Link>(dialled: Dialled<Link>) -> Option<ConnectionState<Link>> {
    match dialled {
        Dialled::Identified { identity, link } => Some(
            ConnectionState { identity, handshake: HandshakeStatus::Unacknowledged, link },
        ),
        _ => None,
    }
}

/// Whether the attempts of `state` can be counted one higher.
pub open spec fn can_retry<Link>(state: ClientState<Link>) -> bool {
    match state {
        ClientState::Idle { connection_attempts } => connection_attempts < u32::MAX,
        ClientState::Quarantined { connection_attempts, .. } => connection_attempts < u32::MAX,
        ClientState::Connected(_) => true,
    }
}

/// The state of a client after it has taken note that it has no session.
pub open spec fn after_disconnect<Link>(state: ClientState<Link>) -> ClientState<Link> {
    match state {
        ClientState::Idle { connection_attempts } => ClientState::Idle {
            connection_attempts: (connection_attempts + 1) as u32,
        },
        ClientState::Quarantined { since, connection_attempts } => ClientState::Quarantined {
            since,
            connection_attempts: (connection_attempts + 1) as u32,
        },
        ClientState::Connected(_) => ClientState::Idle { connection_attempts: 1 },
    }
}

/// The state of a client once its peer is quarantined: an idle client is
/// quarantined since `since` and keeps its attempts; any other state stays.
pub open spec fn after_quarantine<Link>(state: ClientState<Link>, since: Timestamp) -> ClientState<
    Link,
> {
    match state {
        ClientState::Idle { connection_attempts } => ClientState::Quarantined {
            since,
            connection_attempts,
        },
        _ => state,
    }
}

/// The session that ends when a client in `state` takes note that it has none.
pub open spec fn closed_by_disconnect<Link>(state: ClientState<Link>) -> Option<
    ConnectionState<Link>,
> {
    match state {
        ClientState::Connected(connection) => Some(connection),
        _ => None,
    }
}

/// Whether two identities say the same of the peer and of whom it knows.
pub open spec fn same_identity(a: NodeIdentity, b: NodeIdentity) -> bool {
    a.node == b.node && a.peers@ == b.peers@
}

impl<Link, IdSlot, AckSlot> RemoteClient<Link, IdSlot, AckSlot> {
    /// Lines `slot` up to be resolved by the outcome of the next dial.
    pub fn on_identified(&mut self, slot: IdSlot)
        requires
            old(self).wf(),
        ensures
            final(self).wf(),
            final(self)@ == (ClientView {
                on_identified: old(self)@.on_identified.push(slot),
                ..old(self)@
            }),
    {
        self.on_identified_callbacks.push(slot);
    }

    /// Marks the peer of an idle client as persistently unreachable since
    /// `since`. When a peer has failed often enough for that is for the
    /// hosting program to say; the client keeps dialling either way.
    pub fn quarantine(&mut self, since: Timestamp)
        requires
            old(self).wf(),
        ensures
            final(self).wf(),
            final(self)@ == (ClientView {
                state: after_quarantine(old(self)@.state, since),
                ..old(self)@
            }),
    {
        let attempts = match &self.state {
            ClientState::Idle { connection_attempts } => Some(*connection_attempts),
            _ => None,
        };
        if let Some(connection_attempts) = attempts {
            self.state = ClientState::Quarantined { since, connection_attempts };
        }
    }

    /// The session that `dialled` brings: a fresh one, its handshake not yet
    /// acknowledged, where the peer was reached and said who it is, and none
    /// otherwise.
    pub fn connect(&self, _connect: Connect, dialled: Dialled<Link>) -> (connection: Option<
        ConnectionState<Link>,
    >)
        ensures
            connection == established(dialled),
    {
        match dialled {
            Dialled::Identified { identity, link } => Some(
                ConnectionState { identity, handshake: HandshakeStatus::Unacknowledged, link },
            ),
            _ => None,
        }
    }

    /// Takes note of a dial's outcome.
    ///
    /// Everyone who waited for the peer's identity is resolved, newest first.
    /// With a session the client is `Connected` and the registry is told so.
    /// Without one the client does what it does on `Disconnected`.
    pub fn handle_connect(&mut self, message: Connect, dialled: Dialled<Link>) -> (report:
        ConnectReport<Link, IdSlot>)
        requires
            old(self).wf(),
            established(dialled) is None ==> can_retry(old(self)@.state),
        ensures
            final(self).wf(),
            report.identified@ == old(self)@.on_identified.reverse(),
            match established(dialled) {
                Some(connection) => {
                    &&& final(self)@ == (ClientView {
                        state: ClientState::Connected(connection),
                        on_identified: Seq::empty(),
                        ..old(self)@
                    })
                    &&& report.identity matches Some(identity)
                    &&& same_identity(identity, connection.identity)
                    &&& report.registration matches Some(registration)
                    &&& registration.addr@ == old(self)@.addr
                    &&& registration.remote_node_id == connection.identity.node.id
                    &&& report.reconnect is None
                },
                None => {
                    &&& final(self)@ == (ClientView {
                        state: after_disconnect(old(self)@.state),
                        on_identified: Seq::empty(),
                        ..old(self)@
                    })
                    &&& report.identity is None
                    &&& report.registration is None
                    &&& report.reconnect == Some(
                        Reconnect {
                            closed: closed_by_disconnect(old(self)@.state),
                            retry_after_millis: RECONNECT_DELAY_MILLIS,
                        },
                    )
                },
            },
    {
        let identified = take_newest_first(&mut self.on_identified_callbacks);
        match self.connect(message, dialled) {
            Some(connection_state) => {
                let identity = connection_state.identity.clone();
                let registration = ClientConnected {
                    addr: self.addr.clone(),
                    remote_node_id: connection_state.identity.node.id,
                };
                self.state = ClientState::Connected(connection_state);
                ConnectReport {
                    identified,
                    identity: Some(identity),
                    registration: Some(registration),
                    reconnect: None,
                }
            },
            None => {
                let reconnect = self.handle_disconnected(Disconnected);
                ConnectReport {
                    identified,
                    identity: None,
                    registration: None,
                    reconnect: Some(reconnect),
                }
            },
        }
    }

    /// Opens the handshake of a live session.
    ///
    /// A connected client lines the caller's slot up behind those that already
    /// wait and answers with the handshake frame to write to the peer:
    /// `node_id` and `node_tag` name this node, `seed_nodes` are the nodes it
    /// knows. A client without a session does nothing and lets the slot go.
    pub fn handle_begin_handshake(
        &mut self,
        message: BeginHandshake<AckSlot>,
        node_id: NodeId,
        node_tag: String,
    ) -> (frame: Option<SessionEvent>)
        requires
            old(self).wf(),
        ensures
            final(self).wf(),
            match old(self)@.state {
                ClientState::Connected(_) => {
                    &&& final(self)@ == (ClientView {
                        on_handshake_ack: old(self)@.on_handshake_ack.push(
                            message.on_handshake_complete,
                        ),
                        ..old(self)@
                    })
                    &&& frame matches Some(SessionEvent::Handshake(handshake))
                    &&& handshake.node_id == node_id
                    &&& handshake.node_tag == node_tag
                    &&& handshake.token@ == Seq::<u8>::empty()
                    &&& handshake.client_type == old(self)@.client_type
                    &&& handshake.trace_id@ == Seq::<char>::empty()
                    &&& handshake.nodes == message.seed_nodes
                },
                _ => final(self)@ == old(self)@ && frame is None,
            },
    {
        match &self.state {
            ClientState::Connected(_) => {},
            _ => {
                return None;
            },
        }
        let handshake = SessionHandshake {
            node_id,
            node_tag,
            token: Vec::new(),
            client_type: self.client_type,
            trace_id: String::new(),
            nodes: message.seed_nodes,
        };
        self.on_handshake_ack_callbacks.push(message.on_handshake_complete);
        Some(SessionEvent::Handshake(handshake))
    }

    /// Takes note that the peer acknowledged the handshake.
    ///
    /// A connected client records the acknowledgement and hands out the slots
    /// of everyone who waited for it, newest first, to be fulfilled. A client
    /// without a session changes nothing.
    pub fn handle_handshake_acknowledge(&mut self, message: HandshakeAcknowledge) -> (waiting:
        Result<Vec<AckSlot>, ProtocolViolation>)
        requires
            old(self).wf(),
        ensures
            final(self).wf(),
            match old(self)@.state {
                ClientState::Connected(connection) => {
                    &&& final(self)@ == (ClientView {
                        state: ClientState::Connected(
                            ConnectionState {
                                handshake: HandshakeStatus::Acknowledged(message),
                                ..connection
                            },
                        ),
                        on_handshake_ack: Seq::empty(),
                        ..old(self)@
                    })
                    &&& waiting matches Ok(slots)
                    &&& slots@ == old(self)@.on_handshake_ack.reverse()
                },
                _ => final(self)@ == old(self)@ && waiting is Err,
            },
    {
        match &mut self.state {
            ClientState::Connected(state) => {
                state.handshake = HandshakeStatus::Acknowledged(message);
            },
            _ => {
                return Err(ProtocolViolation);
            },
        }
        Ok(take_newest_first(&mut self.on_handshake_ack_callbacks))
    }

    /// Takes note that the client has no session.
    ///
    /// A connected client becomes idle with one attempt counted and hands its
    /// session out to be torn down. An idle or quarantined client counts one
    /// attempt more. In every case a retry is due after
    /// `RECONNECT_DELAY_MILLIS`.
    pub fn handle_disconnected(&mut self, _msg: Disconnected) -> (reconnect: Reconnect<Link>)
        requires
            old(self).wf(),
            can_retry(old(self)@.state),
        ensures
            final(self).wf(),
            final(self)@ == (ClientView {
                state: after_disconnect(old(self)@.state),
                ..old(self)@
            }),
            reconnect == (Reconnect {
                closed: closed_by_disconnect(old(self)@.state),
                retry_after_millis: RECONNECT_DELAY_MILLIS,
            }),
    {
        let mut previous = ClientState::Idle { connection_attempts: 0 };
        core::mem::swap(&mut self.state, &mut previous);
        let closed = match previous {
            ClientState::Idle { connection_attempts } => {
                self.state = ClientState::Idle { connection_attempts: connection_attempts + 1 };
                None
            },
            ClientState::Quarantined { since, connection_attempts } => {
                self.state = ClientState::Quarantined {
                    since,
                    connection_attempts: connection_attempts + 1,
                };
                None
            },
            ClientState::Connected(state) => {
                self.state = ClientState::Idle { connection_attempts: 1 };
                Some(state)
            },
        };
        Reconnect { closed, retry_after_millis: RECONNECT_DELAY_MILLIS }
    }
}

/// The attempts that `state` counts; a live session counts none.
pub open spec fn attempts<Link>(state: ClientState<Link>) -> nat {
    match state {
        ClientState::Idle { connection_attempts } => connection_attempts as nat,
        ClientState::Quarantined { connection_attempts, .. } => connection_attempts as nat,
        ClientState::Connected(_) => 0,
    }
}

/// Taking note twice in a row that there is no session leaves what taking
/// note once leaves, with one attempt more: the client is idle or quarantined
/// as it was after the first time, quarantined since the same moment, and the
/// second time ends no session.
pub proof fn lemma_disconnected_twice<Link>(state: ClientState<Link>)
    requires
        can_retry(state),
        can_retry(after_disconnect(state)),
    ensures
        ({
            let once = after_disconnect(state);
            let twice = after_disconnect(once);
            &&& attempts(once) == attempts(state) + 1
            &&& attempts(twice) == attempts(once) + 1
            &&& closed_by_disconnect(once) is None
            &&& match once {
                ClientState::Idle { .. } => twice is Idle,
                ClientState::Quarantined { since, .. } => twice is Quarantined
                    && twice->since == since,
                ClientState::Connected(_) => false,
            }
        }),
{
}

} // verus!
