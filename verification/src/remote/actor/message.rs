//! What the registry and the request table are asked.
use crate::remote::cluster::node::{NodeId, RemoteNode};
use vstd::prelude::*;

verus! {

/// Asks the registry for every node it knows.
#[derive(Debug)]
pub struct GetNodes;

/// Hands the registry the client of a node.
#[derive(Debug)]
pub struct RegisterClient<C>(pub NodeId, pub C);

/// Tells the registry of nodes that a peer knows.
#[derive(Debug)]
pub struct RegisterNodes(pub Vec<RemoteNode>);

/// Asks the registry to write bytes to the client of a node.
#[derive(Debug)]
pub struct ClientWrite(pub NodeId, pub Vec<u8>);

/// Puts a request into the table, under its correlation id.
#[derive(Debug)]
pub struct PushRequest<Q>(pub u128, pub Q);

/// Takes the request with this correlation id out of the table.
#[derive(Debug)]
pub struct PopRequest(pub u128);

} // verus!
