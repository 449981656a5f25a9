//! The decision core of a distributed actor runtime.
//!
//! Every state machine of the runtime lives here as plain, synchronous code:
//! the actor lifecycle loop, the per-peer remote client, the cluster singleton
//! proxy, the node registry and the worker builder. None of them performs I/O.
//! Each takes the outcome of the last piece of outside work as a value and
//! answers with the next state and with what is to be done next; the hosting
//! program dials, reads, writes, sleeps and awaits.
//!
//! - [`actor`]: the status of an actor and the steps of its loop.
//! - [`remote::net::client`]: the client of one peer, its write buffer and
//!   its handshake.
//! - [`remote::net::message`] and [`remote::net::codec`]: the events of a
//!   session as bytes, and the frames that carry them.
//! - [`remote::cluster::singleton::proxy`]: the stand-in for a cluster-wide
//!   singleton.
//! - [`remote::actor`]: the registry of nodes and clients, and the requests
//!   that wait for a reply.
//! - [`remote::cluster::builder::worker`]: the steps that bring a worker up.
pub mod actor;
mod drain;
pub mod remote;
