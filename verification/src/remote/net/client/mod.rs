//! The client that holds the session with one peer.
//!
//! A client is `Idle`, `Quarantined` or `Connected`. While it has no session
//! it keeps what it is asked to write in a buffer and hands the buffer to the
//! peer, oldest first, once a session stands. The client itself never touches
//! a socket: the hosting program dials and writes, and tells the client how
//! that went. What the program holds for a live session (the write half, the
//! receive task, the ping timer) is one value of type `Link`, kept inside the
//! `Connected` state and handed back when the session ends.
use crate::remote::cluster::node::{clone_nodes, RemoteNode, Timestamp};
use crate::remote::net::message::{ClientType, HandshakeAcknowledge};
use std::collections::VecDeque;
use vstd::prelude::*;

pub mod connect;
pub mod receive;
pub mod send;

verus! {

/// `std::io::Error`, the failure of a stream. A value of it is carried from
/// where the stream failed to whoever looks at the outcome of a write;
/// nothing is known or claimed of what it holds.
#[verifier::external_type_specification]
#[verifier::external_body]
pub struct ExIoError(std::io::Error);

/// Why a write did not go through.
#[derive(Debug)]
pub enum RemoteClientErr {
    /// The message could not be turned into bytes.
    Encoding,
    /// The session's stream failed.
    StreamErr(std::io::Error),
}

/// Who the peer says it is, and whom it knows.
#[derive(Debug)]
pub struct NodeIdentity {
    pub node: RemoteNode,
    pub peers: Vec<RemoteNode>,
}

impl Clone for NodeIdentity {
    fn clone(&self) -> (copy: NodeIdentity)
        ensures
            copy.node == self.node,
            copy.peers@ == self.peers@,
    {
        NodeIdentity { node: self.node.clone(), peers: clone_nodes(&self.peers) }
    }
}

/// How far the handshake of a session has come.
#[derive(Debug)]
pub enum HandshakeStatus {
    Unacknowledged,
    Acknowledged(HandshakeAcknowledge),
}

/// A live session.
#[derive(Debug)]
pub struct ConnectionState<Link> {
    pub identity: NodeIdentity,
    pub handshake: HandshakeStatus,
    pub link: Link,
}

/// The state of a client towards its peer.
#[derive(Debug)]
pub enum ClientState<Link> {
    Idle { connection_attempts: u32 },
    Quarantined { since: Timestamp, connection_attempts: u32 },
    Connected(ConnectionState<Link>),
}

/// The sum of the lengths of `entries`.
pub open spec fn total_len(entries: Seq<Seq<u8>>) -> nat
    decreases entries.len(),
{
    if entries.len() == 0 {
        0
    } else {
        total_len(entries.drop_last()) + entries.last().len()
    }
}

/// The byte strings that `buffer` holds, oldest first.
pub open spec fn payloads(buffer: Seq<Vec<u8>>) -> Seq<Seq<u8>> {
    buffer.map_values(|entry: Vec<u8>| entry@)
}

/// A client as contracts see it.
pub struct ClientView<Link, IdSlot, AckSlot> {
    pub addr: Seq<char>,
    pub client_type: ClientType,
    pub state: ClientState<Link>,
    /// What waits to be written, oldest first.
    pub write_buffer: Seq<Seq<u8>>,
    /// Who waits to learn the peer's identity, in order of arrival.
    pub on_identified: Seq<IdSlot>,
    /// Who waits for the handshake to be acknowledged, in order of arrival.
    pub on_handshake_ack: Seq<AckSlot>,
}

/// The client of one peer. `IdSlot` and `AckSlot` are the completion slots of
/// callers that wait for the peer's identity and for the handshake.
pub struct RemoteClient<Link, IdSlot, AckSlot> {
    pub(crate) addr: String,
    pub(crate) client_type: ClientType,
    pub(crate) state: ClientState<Link>,
    pub(crate) write_buffer: VecDeque<Vec<u8>>,
    pub(crate) write_buffer_bytes_total: u128,
    pub(crate) on_identified_callbacks: Vec<IdSlot>,
    pub(crate) on_handshake_ack_callbacks: Vec<AckSlot>,
}

impl<Link, IdSlot, AckSlot> View for RemoteClient<Link, IdSlot, AckSlot> {
    type V = ClientView<Link, IdSlot, AckSlot>;

    open(crate) spec fn view(&self) -> ClientView<Link, IdSlot, AckSlot> {
        ClientView {
            addr: self.addr@,
            client_type: self.client_type,
            state: self.state,
            write_buffer: payloads(self.write_buffer@),
            on_identified: self.on_identified_callbacks@,
            on_handshake_ack: self.on_handshake_ack_callbacks@,
        }
    }
}

/// Appending an entry appends its bytes and adds its length to the total.
pub(crate) proof fn lemma_total_len_push(buffer: Seq<Vec<u8>>, entry: Vec<u8>)
    ensures
        payloads(buffer.push(entry)) == payloads(buffer).push(entry@),
        total_len(payloads(buffer).push(entry@)) == total_len(payloads(buffer)) + entry@.len(),
{
    assert(payloads(buffer.push(entry)) =~= payloads(buffer).push(entry@));
    assert(payloads(buffer).push(entry@).drop_last() =~= payloads(buffer));
}

/// Taking the oldest entry away takes its length off the total.
pub(crate) proof fn lemma_total_len_front(entries: Seq<Seq<u8>>)
    requires
        entries.len() > 0,
    ensures
        total_len(entries) == entries[0].len() + total_len(entries.skip(1)),
    decreases entries.len(),
{
    if entries.len() == 1 {
        assert(entries.drop_last() =~= entries.skip(1));
    } else {
        lemma_total_len_front(entries.drop_last());
        assert(entries.drop_last().skip(1) =~= entries.skip(1).drop_last());
    }
}

/// No buffer that a `VecDeque` can hold has a total that leaves a `u128`
/// without room for one more entry.
pub(crate) proof fn lemma_total_len_fits(buffer: Seq<Vec<u8>>)
    requires
        buffer.len() <= usize::MAX,
    ensures
        total_len(payloads(buffer)) + usize::MAX <= u128::MAX,
    decreases buffer.len(),
{
    lemma_total_len_bound(buffer);
    assert(buffer.len() * usize::MAX + usize::MAX <= u128::MAX) by (nonlinear_arith)
        requires
            buffer.len() <= usize::MAX,
            usize::MAX <= 0xffff_ffff_ffff_ffff,
            u128::MAX == 0xffff_ffff_ffff_ffff_ffff_ffff_ffff_ffff,
    ;
}

proof fn lemma_total_len_bound(buffer: Seq<Vec<u8>>)
    ensures
        total_len(payloads(buffer)) <= buffer.len() * usize::MAX,
    decreases buffer.len(),
{
    let entries = payloads(buffer);
    if buffer.len() > 0 {
        assert(entries.drop_last() =~= payloads(buffer.drop_last()));
        lemma_total_len_bound(buffer.drop_last());
        let newest = buffer.last();
        assert(entries.last() == newest@);
        assert(newest@.len() == newest.len());
        assert((buffer.len() - 1) * usize::MAX + usize::MAX == buffer.len() * usize::MAX)
            by (nonlinear_arith);
    }
}

impl<Link, IdSlot, AckSlot> RemoteClient<Link, IdSlot, AckSlot> {
    /// The running total of buffered bytes is the sum of the lengths of the
    /// buffered entries. Every client that this module hands out is well
    /// formed, and every method keeps it so.
    pub open(crate) spec fn wf(&self) -> bool {
        self.write_buffer_bytes_total == total_len(payloads(self.write_buffer@))
    }

    /// A client for the peer at `addr`, idle, with nothing tried and nothing
    /// buffered.
    pub fn new(addr: String, client_type: ClientType) -> (client: Self)
        ensures
            client.wf(),
            client@ == (ClientView::<Link, IdSlot, AckSlot> {
                addr: addr@,
                client_type,
                state: ClientState::Idle { connection_attempts: 0 },
                write_buffer: Seq::empty(),
                on_identified: Seq::empty(),
                on_handshake_ack: Seq::empty(),
            }),
    {
        let client = RemoteClient {
            addr,
            client_type,
            state: ClientState::Idle { connection_attempts: 0 },
            write_buffer: VecDeque::new(),
            write_buffer_bytes_total: 0,
            on_identified_callbacks: Vec::new(),
            on_handshake_ack_callbacks: Vec::new(),
        };
        assert(client@.write_buffer == Seq::<Seq<u8>>::empty());
        client
    }

    /// The number of bytes that wait in the write buffer. The count is kept
    /// in a `u128`, which the lengths of all the entries that a buffer can
    /// hold never exceed.
    pub fn write_buffer_bytes_total(&self) -> (total: u128)
        requires
            self.wf(),
        ensures
            total == total_len(self@.write_buffer),
    {
        self.write_buffer_bytes_total
    }

    /// The address of the peer.
    pub fn addr(&self) -> (addr: &String)
        ensures
            addr@ == self@.addr,
    {
        &self.addr
    }

    pub fn client_type(&self) -> (client_type: ClientType)
        ensures
            client_type == self@.client_type,
    {
        self.client_type
    }

    pub fn state(&self) -> (state: &ClientState<Link>)
        ensures
            *state == self@.state,
    {
        &self.state
    }

    /// What waits to be written, oldest first.
    pub fn write_buffer(&self) -> (buffer: &VecDeque<Vec<u8>>)
        ensures
            payloads(buffer@) == self@.write_buffer,
    {
        &self.write_buffer
    }

    /// What the hosting program holds for the live session, if there is one.
    pub fn link_mut(&mut self) -> (link: Option<&mut Link>)
        requires
            old(self).wf(),
        ensures
            final(self).wf(),
            match link {
                Some(link) => old(self)@.state matches ClientState::Connected(connection)
                    && *link == connection.link
                    && final(self)@ == (ClientView {
                        state: ClientState::Connected(
                            ConnectionState { link: *final(link), ..connection },
                        ),
                        ..old(self)@
                    }),
                None => !(old(self)@.state is Connected) && final(self)@ == old(self)@,
            },
    {
        match &mut self.state {
            ClientState::Connected(connection) => Some(&mut connection.link),
            _ => None,
        }
    }
}

} // verus!
