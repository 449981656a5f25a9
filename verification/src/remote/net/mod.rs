//! Sessions with peer nodes.
use vstd::prelude::*;

pub mod client;
pub mod codec;
pub mod message;
pub mod wire;

verus! {

/// A value that can travel over a session.
pub trait StreamData: Sized {
    /// Decodes a value; `None` where the bytes stand for none.
    fn read_from_bytes(data: Vec<u8>) -> Option<Self>;

    /// Encodes the value; `None` where it cannot be encoded.
    fn write_to_bytes(&self) -> Option<Vec<u8>>;
}

} // verus!
