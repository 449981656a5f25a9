//! The actors that keep a node's view of its peers: the registry of nodes and
//! their clients, and the table of requests that wait for a reply.
use crate::remote::cluster::node::{node_ids, with_node, NodeId, RemoteNode, RemoteNodeStore};
use std::collections::HashMap;
use vstd::prelude::*;

pub mod handler;
pub mod message;

verus! {

/// The nodes that this node knows, and the clients that it holds for them.
/// `C` is whatever reaches a peer: a client, or a reference to its actor.
pub struct RemoteRegistry<C> {
    pub(crate) nodes: RemoteNodeStore,
    pub(crate) clients: HashMap<NodeId, C>,
}

/// A registry as contracts see it.
pub struct RegistryView<C> {
    /// The known nodes, one per id.
    pub nodes: Seq<RemoteNode>,
    /// The client of each node that has one.
    pub clients: Map<NodeId, C>,
}

impl<C> View for RemoteRegistry<C> {
    type V = RegistryView<C>;

    open(crate) spec fn view(&self) -> RegistryView<C> {
        RegistryView { nodes: self.nodes@, clients: self.clients@ }
    }
}

impl<C> RemoteRegistry<C> {
    /// No node is known twice.
    pub open(crate) spec fn wf(&self) -> bool {
        self.nodes.wf()
    }

    /// A registry that knows no node and holds no client.
    pub fn new() -> (registry: Self)
        ensures
            registry.wf(),
            registry@ == (RegistryView::<C> { nodes: Seq::empty(), clients: Map::empty() }),
    {
        RemoteRegistry { nodes: RemoteNodeStore::new(), clients: HashMap::new() }
    }

    /// Makes `node` known, in the place of what was known under its id.
    pub fn add_node(&mut self, node: RemoteNode)
        requires
            old(self).wf(),
        ensures
            final(self).wf(),
            final(self)@ == (RegistryView {
                nodes: with_node(old(self)@.nodes, node),
                ..old(self)@
            }),
    {
        self.nodes.add(node);
    }

    /// Whether a node with this id is known.
    pub fn is_registered(&self, id: NodeId) -> (known: bool)
        ensures
            known == node_ids(self@.nodes).contains(id),
    {
        self.nodes.is_registered(id)
    }

    /// Holds `client` for the node `node_id`, in the place of the client held
    /// for it before.
    pub fn add_client(&mut self, node_id: NodeId, client: C)
        requires
            old(self).wf(),
        ensures
            final(self).wf(),
            final(self)@ == (RegistryView {
                clients: old(self)@.clients.insert(node_id, client),
                ..old(self)@
            }),
    {
        self.clients.insert(node_id, client);
    }

    /// The client held for the node `node_id`.
    pub fn client(&self, node_id: NodeId) -> (client: Option<&C>)
        ensures
            match client {
                Some(client) => self@.clients.contains_key(node_id) && *client
                    == self@.clients[node_id],
                None => !self@.clients.contains_key(node_id),
            },
    {
        self.clients.get(&node_id)
    }
}

/// The requests that were sent to peers and wait for their reply, by
/// correlation id. `Q` is what a reply is handed to.
pub struct RemoteHandler<Q> {
    pub(crate) requests: HashMap<u128, Q>,
}

impl<Q> View for RemoteHandler<Q> {
    type V = Map<u128, Q>;

    open(crate) spec fn view(&self) -> Map<u128, Q> {
        self.requests@
    }
}

impl<Q> RemoteHandler<Q> {
    /// A table in which no request waits.
    pub fn new() -> (handler: Self)
        ensures
            handler@ == Map::<u128, Q>::empty(),
    {
        RemoteHandler { requests: HashMap::new() }
    }
}

} // verus!
