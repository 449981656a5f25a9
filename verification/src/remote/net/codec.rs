//! Frames on the stream of a session.
//!
//! A frame is its payload behind the payload's length, in four bytes,
//! little-endian. Frames follow one another on the stream without anything
//! between them.
use crate::remote::net::wire::{
    blob_fits, blob_wire, lemma_blob_inverse, lemma_blob_round_trip, lemma_u32_round_trip,
    parse_blob, parse_u32, put_blob, take_blob,
};
use vstd::prelude::*;

verus! {

/// Cuts the stream of a session into frames.
#[derive(Clone, Copy, Debug)]
pub struct NetworkCodec;

impl NetworkCodec {
    /// Appends the frame of `item` to `dst`. `false`, and nothing appended,
    /// where `item` is too long for a frame.
    pub fn encode(&self, item: &Vec<u8>, dst: &mut Vec<u8>) -> (framed: bool)
        ensures
            framed == blob_fits(item@),
            framed ==> final(dst)@ == old(dst)@ + blob_wire(item@),
            !framed ==> final(dst)@ == old(dst)@,
    {
        put_blob(dst, item)
    }

    /// The payload of the frame at the front of `src`, with the number of
    /// bytes that the frame takes up. `None` where `src` does not hold a whole
    /// frame yet.
    pub fn decode(&self, src: &[u8]) -> (frame: Option<(Vec<u8>, usize)>)
        ensures
            match frame {
                Some((payload, used)) => {
                    &&& used <= src@.len()
                    &&& blob_fits(payload@)
                    &&& src@ == blob_wire(payload@) + src@.skip(used as int)
                },
                None => forall|payload: Seq<u8>, following: Seq<u8>|
                    blob_fits(payload) ==> #[trigger] (blob_wire(payload) + following) != src@,
            },
    {
        proof {
            assert(src@.skip(0) =~= src@);
            lemma_blob_inverse(src@);
            assert forall|payload: Seq<u8>, following: Seq<u8>| blob_fits(payload) implies
                #[trigger] (blob_wire(payload) + following) != src@ || parse_blob(src@) is Some by {
                lemma_blob_round_trip(payload, following);
            }
        }
        take_blob(src, 0)
    }
}

/// A frame is read as it was written, whatever follows it on the stream.
pub proof fn lemma_frame_round_trip(payload: Seq<u8>, following: Seq<u8>)
    requires
        blob_fits(payload),
    ensures
        parse_blob(blob_wire(payload) + following) == Some((payload, following)),
{
    lemma_blob_round_trip(payload, following);
}

/// No frame is read off a stream that holds only a part of one.
pub proof fn lemma_partial_frame(payload: Seq<u8>, received: int)
    requires
        blob_fits(payload),
        0 <= received < blob_wire(payload).len(),
    ensures
        parse_blob(blob_wire(payload).take(received)) is None,
{
    reveal(parse_blob);
    let frame = blob_wire(payload);
    let part = frame.take(received);
    lemma_u32_round_trip(payload.len() as u32, payload);
    if received >= 4 {
        assert(part.take(4) =~= frame.take(4));
        assert(part.skip(4).len() == received - 4);
        assert(parse_u32(part) == Some((payload.len() as u32, part.skip(4))));
    }
}

} // verus!
