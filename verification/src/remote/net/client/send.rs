//! Writing to the peer, and buffering while there is no session.
//!
//! Whatever a client accepts it either hands to the hosting program to be
//! written at once, or keeps in its buffer. The buffer leaves in the order in
//! which it was filled, one entry at a time, and an entry that could not be
//! written goes back to where it was.
use crate::remote::net::client::connect::{
    after_disconnect, can_retry, closed_by_disconnect, Disconnected, Reconnect,
    RECONNECT_DELAY_MILLIS,
};
use crate::remote::net::client::{
    lemma_total_len_fits, lemma_total_len_front, lemma_total_len_push, payloads, ClientState,
    ClientView, RemoteClient, RemoteClientErr,
};
use crate::remote::net::StreamData;
use vstd::prelude::*;

verus! {

/// Asks the client to send a value to its peer.
pub struct Write<M: StreamData>(pub M);

/// What is left to do once a client has accepted bytes.
#[derive(Debug)]
pub enum WriteStep {
    /// There is no session: the bytes wait in the buffer.
    Buffered,
    /// There is a session: write these bytes to it now, and report how that
    /// went with `write_completed`.
    Send(Vec<u8>),
}

/// What encoding a value gave, as contracts see it.
pub open spec fn encoding(encoded: Option<Vec<u8>>) -> Option<Seq<u8>> {
    match encoded {
        Some(bytes) => Some(bytes@),
        None => None,
    }
}

/// How `step` and the client `after` follow from the client `before` and the
/// encoding of the value to write.
pub open spec fn accepted<Link, IdSlot, AckSlot>(
    before: ClientView<Link, IdSlot, AckSlot>,
    encoded: Option<Seq<u8>>,
    after: ClientView<Link, IdSlot, AckSlot>,
    step: Result<WriteStep, RemoteClientErr>,
) -> bool {
    match encoded {
        None => after == before && step matches Err(RemoteClientErr::Encoding),
        Some(bytes) => match before.state {
            ClientState::Connected(_) => {
                &&& after == before
                &&& step matches Ok(WriteStep::Send(sent))
                &&& sent@ == bytes
            },
            _ => {
                &&& after == (ClientView { write_buffer: before.write_buffer.push(bytes), ..before })
                &&& step matches Ok(WriteStep::Buffered)
            },
        },
    }
}

/// The write buffer after a flush step, given the buffer before it, whether
/// there is a session, and how the entry of the step before fared (`None`
/// where this step is the first).
pub open spec fn flushed_buffer(
    buffer: Seq<Seq<u8>>,
    connected: bool,
    last: Option<(Seq<u8>, bool)>,
) -> Seq<Seq<u8>> {
    match last {
        Some((bytes, false)) => seq![bytes] + buffer,
        _ => if connected && buffer.len() > 0 {
            buffer.skip(1)
        } else {
            buffer
        },
    }
}

/// The entry that a flush step hands out to be written, if it hands one out.
pub open spec fn flushed_entry(
    buffer: Seq<Seq<u8>>,
    connected: bool,
    last: Option<(Seq<u8>, bool)>,
) -> Option<Seq<u8>> {
    match last {
        Some((_, false)) => None,
        _ => if connected && buffer.len() > 0 {
            Some(buffer[0])
        } else {
            None
        },
    }
}

/// Whether a write failed on the session's stream.
pub open spec fn stream_failed(outcome: Result<(), RemoteClientErr>) -> bool {
    outcome matches Err(RemoteClientErr::StreamErr(_))
}

/// The write buffer after the hosting program has tried to write `bytes`,
/// which `write` handed out: bytes that the stream failed on wait at the end.
pub open spec fn buffer_after_write(
    buffer: Seq<Seq<u8>>,
    bytes: Seq<u8>,
    outcome: Result<(), RemoteClientErr>,
) -> Seq<Seq<u8>> {
    if stream_failed(outcome) {
        buffer.push(bytes)
    } else {
        buffer
    }
}

/// An entry with the outcome of writing it, as contracts see the pair.
pub open spec fn attempt(last: Option<(Vec<u8>, Result<(), RemoteClientErr>)>) -> Option<
    (Seq<u8>, bool),
> {
    match last {
        Some((bytes, outcome)) => Some((bytes@, outcome is Ok)),
        None => None,
    }
}

impl<Link, IdSlot, AckSlot> RemoteClient<Link, IdSlot, AckSlot> {
    /// One step of handing the write buffer to the peer.
    ///
    /// The buffer is flushed when a session has just been established. The
    /// first step takes `None`; every later step takes the entry that the step
    /// before handed out, with the outcome of writing it. While the client is
    /// connected and the last write went through, the step takes the oldest
    /// entry out of the buffer and hands it out to be written. An entry whose
    /// write failed goes back to the front of the buffer, and the flush ends.
    /// It ends as well when the buffer is empty or there is no session.
    /// `None` says that the flush has ended.
    pub fn flush_buffered_writes(
        &mut self,
        last: Option<(Vec<u8>, Result<(), RemoteClientErr>)>,
    ) -> (next: Option<Vec<u8>>)
        requires
            old(self).wf(),
        ensures
            final(self).wf(),
            final(self)@ == (ClientView {
                write_buffer: flushed_buffer(
                    old(self)@.write_buffer,
                    old(self)@.state is Connected,
                    attempt(last),
                ),
                ..old(self)@
            }),
            match next {
                Some(bytes) => Some(bytes@) == flushed_entry(
                    old(self)@.write_buffer,
                    old(self)@.state is Connected,
                    attempt(last),
                ),
                None => flushed_entry(
                    old(self)@.write_buffer,
                    old(self)@.state is Connected,
                    attempt(last),
                ) is None,
            },
    {
        proof {
            assert(self.write_buffer@.len() == self.write_buffer.len());
            lemma_total_len_fits(self.write_buffer@);
        }
        if let Some((bytes, outcome)) = last {
            if outcome.is_err() {
                proof {
                    let entries = seq![bytes@] + payloads(self.write_buffer@);
                    assert(payloads(seq![bytes] + self.write_buffer@) =~= entries);
                    assert(entries.skip(1) =~= payloads(self.write_buffer@));
                    lemma_total_len_front(entries);
                }
                self.write_buffer_bytes_total += bytes.len() as u128;
                self.write_buffer.push_front(bytes);
                return None;
            }
        }
        match &self.state {
            ClientState::Connected(_) => {},
            _ => {
                return None;
            },
        }
        let ghost entries = payloads(self.write_buffer@);
        match self.write_buffer.pop_front() {
            Some(bytes) => {
                proof {
                    assert(payloads(self.write_buffer@) =~= entries.skip(1));
                    lemma_total_len_front(entries);
                }
                self.write_buffer_bytes_total -= bytes.len() as u128;
                Some(bytes)
            },
            None => None,
        }
    }

    /// Puts `message_bytes` at the end of the write buffer.
    pub fn buffer_message(&mut self, message_bytes: Vec<u8>)
        requires
            old(self).wf(),
        ensures
            final(self).wf(),
            final(self)@ == (ClientView {
                write_buffer: old(self)@.write_buffer.push(message_bytes@),
                ..old(self)@
            }),
    {
        proof {
            assert(self.write_buffer@.len() == self.write_buffer.len());
            lemma_total_len_fits(self.write_buffer@);
            lemma_total_len_push(self.write_buffer@, message_bytes);
        }
        self.write_buffer_bytes_total += message_bytes.len() as u128;
        self.write_buffer.push_back(message_bytes);
    }

    /// Accepts `message` for the peer: encodes it, and goes on as
    /// `write_encoded` does with what the encoding gave.
    pub fn write<M: StreamData>(&mut self, message: M) -> (step: Result<WriteStep, RemoteClientErr>)
        requires
            old(self).wf(),
        ensures
            final(self).wf(),
            exists|encoded: Option<Vec<u8>>|
                call_ensures(M::write_to_bytes, (&message,), encoded) && #[trigger] accepted(
                    old(self)@,
                    encoding(encoded),
                    final(self)@,
                    step,
                ),
    {
        let encoded = message.write_to_bytes();
        let ghost outcome = encoded;
        let step = self.write_encoded(encoded);
        assert(call_ensures(M::write_to_bytes, (&message,), outcome) && accepted(
            old(self)@,
            encoding(outcome),
            self@,
            step,
        ));
        step
    }

    /// Accepts the encoding of a value for the peer.
    ///
    /// A value that could not be encoded, `None`, is refused with `Encoding`,
    /// and nothing changes. The bytes of any other value are accepted: a
    /// client without a session buffers them, a connected client hands them
    /// out to be written.
    pub fn write_encoded(&mut self, encoded: Option<Vec<u8>>) -> (step: Result<
        WriteStep,
        RemoteClientErr,
    >)
        requires
            old(self).wf(),
        ensures
            final(self).wf(),
            accepted(old(self)@, encoding(encoded), final(self)@, step),
    {
        match encoded {
            Some(bytes) => {
                match &self.state {
                    ClientState::Connected(_) => Ok(WriteStep::Send(bytes)),
                    _ => {
                        self.buffer_message(bytes);
                        Ok(WriteStep::Buffered)
                    },
                }
            },
            None => Err(RemoteClientErr::Encoding),
        }
    }

    /// Takes note of how the write of `bytes`, handed out by `write`, went.
    ///
    /// Where the stream failed, the bytes go to the end of the write buffer
    /// and the client does what it does on `Disconnected`. Nothing changes
    /// otherwise. The sender of the value learns of neither.
    pub fn write_completed(
        &mut self,
        bytes: Vec<u8>,
        outcome: Result<(), RemoteClientErr>,
    ) -> (reconnect: Option<Reconnect<Link>>)
        requires
            old(self).wf(),
            stream_failed(outcome) ==> can_retry(old(self)@.state),
        ensures
            final(self).wf(),
            if stream_failed(outcome) {
                &&& final(self)@ == (ClientView {
                    state: after_disconnect(old(self)@.state),
                    write_buffer: buffer_after_write(old(self)@.write_buffer, bytes@, outcome),
                    ..old(self)@
                })
                &&& reconnect == Some(
                    Reconnect {
                        closed: closed_by_disconnect(old(self)@.state),
                        retry_after_millis: RECONNECT_DELAY_MILLIS,
                    },
                )
            } else {
                final(self)@ == old(self)@ && reconnect is None
            },
    {
        match outcome {
            Err(RemoteClientErr::StreamErr(_)) => {
                self.buffer_message(bytes);
                Some(self.handle_disconnected(Disconnected))
            },
            _ => None,
        }
    }
}

/// What the peer has seen of an entry, given the outcome of writing it.
pub open spec fn seen(written: Option<(Seq<u8>, bool)>) -> Seq<Seq<u8>> {
    match written {
        Some((bytes, true)) => seq![bytes],
        _ => Seq::empty(),
    }
}

/// What a client still owes its peer, oldest first: the entry that a flush
/// has handed out to be written, if any, and then the write buffer.
pub open spec fn owed(handed_out: Option<Seq<u8>>, buffer: Seq<Seq<u8>>) -> Seq<Seq<u8>> {
    match handed_out {
        Some(bytes) => seq![bytes] + buffer,
        None => buffer,
    }
}

/// The entry of an attempt.
pub open spec fn entry_of(written: Option<(Seq<u8>, bool)>) -> Option<Seq<u8>> {
    match written {
        Some((bytes, _)) => Some(bytes),
        None => None,
    }
}

/// A flush step neither drops nor reorders: what the peer has seen of the
/// entry of the step before, followed by what the client owes after the step,
/// is what the client owed before it.
pub proof fn lemma_flush_keeps_order(
    buffer: Seq<Seq<u8>>,
    connected: bool,
    last: Option<(Seq<u8>, bool)>,
)
    ensures
        seen(last) + owed(
            flushed_entry(buffer, connected, last),
            flushed_buffer(buffer, connected, last),
        ) == owed(entry_of(last), buffer),
{
    assert(seen(last) + owed(
        flushed_entry(buffer, connected, last),
        flushed_buffer(buffer, connected, last),
    ) =~= owed(entry_of(last), buffer));
}

/// A write neither drops nor reorders: what the peer has seen of the accepted
/// bytes, followed by the write buffer once the write is done with, is the
/// write buffer as it was, with the accepted bytes at its end.
///
/// This holds of bytes that are buffered, and of bytes that are handed out
/// and that the stream takes or fails on. It needs the buffer to be empty
/// where the stream takes bytes: bytes written while older ones wait, as they
/// do after a flush that failed, reach the peer before those.
pub proof fn lemma_write_keeps_order<Link, IdSlot, AckSlot>(
    before: ClientView<Link, IdSlot, AckSlot>,
    bytes: Seq<u8>,
    accepting: ClientView<Link, IdSlot, AckSlot>,
    step: Result<WriteStep, RemoteClientErr>,
    outcome: Result<(), RemoteClientErr>,
)
    requires
        accepted(before, Some(bytes), accepting, step),
        step matches Ok(WriteStep::Send(_)) ==> {
            &&& outcome is Ok || stream_failed(outcome)
            &&& outcome is Ok ==> before.write_buffer.len() == 0
        },
    ensures
        match step {
            Ok(WriteStep::Send(sent)) => seen(Some((sent@, outcome is Ok))) + buffer_after_write(
                accepting.write_buffer,
                sent@,
                outcome,
            ) == before.write_buffer.push(bytes),
            _ => accepting.write_buffer == before.write_buffer.push(bytes),
        },
{
    if let Ok(WriteStep::Send(sent)) = step {
        assert(seen(Some((sent@, outcome is Ok))) + buffer_after_write(
            accepting.write_buffer,
            sent@,
            outcome,
        ) =~= before.write_buffer.push(bytes));
    }
}

/// What happens on the way of bytes from a client to its peer.
pub enum Traffic {
    /// The client accepted `bytes`. Where it handed them out to be written,
    /// `took` says whether the stream took them.
    Write { bytes: Seq<u8>, took: bool },
    /// One step of a flush. Where the step before handed an entry out, `took`
    /// says whether the stream took it.
    Flush { took: bool },
    /// A session was established.
    Up,
    /// The session was lost.
    Down,
}

/// The way of bytes from a client to its peer.
pub struct Way {
    /// Whether the client has a session.
    pub connected: bool,
    /// The write buffer of the client.
    pub buffer: Seq<Seq<u8>>,
    /// The entry that a flush has handed out, until its outcome is reported.
    pub handed_out: Option<Seq<u8>>,
    /// What the peer has seen, in order.
    pub seen: Seq<Seq<u8>>,
    /// What the client has accepted, in order.
    pub accepted: Seq<Seq<u8>>,
}

/// The entry that a flush handed out, with the outcome of writing it.
pub open spec fn reported(handed_out: Option<Seq<u8>>, took: bool) -> Option<(Seq<u8>, bool)> {
    match handed_out {
        Some(bytes) => Some((bytes, took)),
        None => None,
    }
}

/// The way after `traffic`, as `write`, `write_completed` and
/// `flush_buffered_writes` leave the buffer.
pub open spec fn way_after(way: Way, traffic: Traffic) -> Way {
    match traffic {
        Traffic::Write { bytes, took } => if way.connected && took {
            Way { seen: way.seen.push(bytes), accepted: way.accepted.push(bytes), ..way }
        } else {
            Way {
                connected: false,
                buffer: way.buffer.push(bytes),
                accepted: way.accepted.push(bytes),
                ..way
            }
        },
        Traffic::Flush { took } => {
            let last = reported(way.handed_out, took);
            Way {
                buffer: flushed_buffer(way.buffer, way.connected, last),
                handed_out: flushed_entry(way.buffer, way.connected, last),
                seen: way.seen + seen(last),
                ..way
            }
        },
        Traffic::Up => Way { connected: true, ..way },
        Traffic::Down => Way { connected: false, ..way },
    }
}

/// A write leaves the buffer of the way as `write` and `write_completed`
/// leave the buffer of the client.
pub proof fn lemma_way_follows_write<Link, IdSlot, AckSlot>(
    way: Way,
    before: ClientView<Link, IdSlot, AckSlot>,
    bytes: Seq<u8>,
    accepting: ClientView<Link, IdSlot, AckSlot>,
    step: Result<WriteStep, RemoteClientErr>,
    outcome: Result<(), RemoteClientErr>,
)
    requires
        accepted(before, Some(bytes), accepting, step),
        way.connected == (before.state is Connected),
        way.buffer == before.write_buffer,
        outcome is Ok || stream_failed(outcome),
    ensures
        way_after(way, Traffic::Write { bytes, took: outcome is Ok }).buffer == match step {
            Ok(WriteStep::Send(sent)) => buffer_after_write(accepting.write_buffer, sent@, outcome),
            _ => accepting.write_buffer,
        },
{
}

/// Whether `traffic` lets bytes reach the peer while older ones wait: a write
/// that the stream takes although the client still owes the peer something.
pub open spec fn overtakes(way: Way, traffic: Traffic) -> bool {
    traffic matches Traffic::Write { took: true, .. } && way.connected && owed(
        way.handed_out,
        way.buffer,
    ).len() > 0
}

/// The way after all of `traffic`, in order.
pub open spec fn way_after_all(way: Way, traffic: Seq<Traffic>) -> Way
    decreases traffic.len(),
{
    if traffic.len() == 0 {
        way
    } else {
        way_after(way_after_all(way, traffic.drop_last()), traffic.last())
    }
}

/// Whether nothing in `traffic` overtakes.
pub open spec fn in_turn(way: Way, traffic: Seq<Traffic>) -> bool
    decreases traffic.len(),
{
    traffic.len() > 0 ==> in_turn(way, traffic.drop_last()) && !overtakes(
        way_after_all(way, traffic.drop_last()),
        traffic.last(),
    )
}

/// Whether what the peer has seen, followed by what the client owes it, is
/// what the client has accepted.
pub open spec fn in_order(way: Way) -> bool {
    way.seen + owed(way.handed_out, way.buffer) == way.accepted
}

/// Whatever a client goes through, it neither loses nor reorders what it has
/// accepted, as long as no write overtakes: at every moment what the peer has
/// seen, followed by what the client owes it, is what the client has
/// accepted, in the order of acceptance. What is still owed leaves in that
/// order once the stream takes it.
pub proof fn lemma_accepted_bytes_keep_their_order(way: Way, traffic: Seq<Traffic>)
    requires
        in_order(way),
        in_turn(way, traffic),
    ensures
        in_order(way_after_all(way, traffic)),
    decreases traffic.len(),
{
    if traffic.len() > 0 {
        lemma_accepted_bytes_keep_their_order(way, traffic.drop_last());
        let before = way_after_all(way, traffic.drop_last());
        let after = way_after(before, traffic.last());
        let owing = owed(before.handed_out, before.buffer);
        match traffic.last() {
            Traffic::Write { bytes, took } => {
                if before.connected && took {
                    assert(owing =~= Seq::<Seq<u8>>::empty());
                    assert(after.seen + owed(after.handed_out, after.buffer) =~= (before.seen
                        + owing).push(bytes));
                } else {
                    assert(after.seen + owed(after.handed_out, after.buffer) =~= (before.seen
                        + owing).push(bytes));
                }
            },
            Traffic::Flush { took } => {
                let last = reported(before.handed_out, took);
                lemma_flush_keeps_order(before.buffer, before.connected, last);
                assert(entry_of(last) == before.handed_out);
                assert(after.seen + owed(after.handed_out, after.buffer) =~= before.seen + (seen(
                    last,
                ) + owed(after.handed_out, after.buffer)));
            },
            Traffic::Up => {},
            Traffic::Down => {},
        }
    }
}

} // verus!
