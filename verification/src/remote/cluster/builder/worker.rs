//! Setting up a worker node.
//!
//! A builder collects where the worker listens and where it finds the
//! cluster. `start` turns what was collected into the steps that bring the
//! worker up; the hosting program carries them out: it registers this node,
//! dials and registers the seed where there is one, and then serves.
use crate::remote::cluster::node::{NodeId, RemoteNode};
use vstd::prelude::*;

verus! {

/// Collects the settings of a worker node. `Ctx` is the running system that
/// the worker joins the cluster with, `Seed` a source of seed nodes.
pub struct ClusterWorkerBuilder<Ctx, Seed> {
    server_listen_addr: String,
    seed: Option<Seed>,
    seed_addr: Option<String>,
    context: Ctx,
}

/// A builder as contracts see it.
pub struct BuilderView<Ctx, Seed> {
    pub server_listen_addr: Seq<char>,
    pub seed: Option<Seed>,
    pub seed_addr: Option<Seq<char>>,
    pub context: Ctx,
}

/// The steps that bring a worker up, in their order.
pub struct WorkerStart<Ctx> {
    /// The system to bring up.
    pub context: Ctx,
    /// First: register this node.
    pub node: RemoteNode,
    /// Then, where there is one: dial the seed at this address, and register
    /// it as `discover_peers` says.
    pub seed_addr: Option<String>,
    /// Last: serve at this address.
    pub server_listen_addr: String,
}

/// The characters of an address that may be absent.
pub open spec fn addr_view(addr: Option<String>) -> Option<Seq<char>> {
    match addr {
        Some(addr) => Some(addr@),
        None => None,
    }
}

impl<Ctx, Seed> View for ClusterWorkerBuilder<Ctx, Seed> {
    type V = BuilderView<Ctx, Seed>;

    closed spec fn view(&self) -> BuilderView<Ctx, Seed> {
        BuilderView {
            server_listen_addr: self.server_listen_addr@,
            seed: self.seed,
            seed_addr: addr_view(self.seed_addr),
            context: self.context,
        }
    }
}

impl<Ctx, Seed> ClusterWorkerBuilder<Ctx, Seed> {
    /// A builder for a worker that serves at `0.0.0.0:30101` and knows no
    /// seed.
    pub fn new(context: Ctx) -> (builder: Self)
        ensures
            builder@ == (BuilderView::<Ctx, Seed> {
                server_listen_addr: "0.0.0.0:30101"@,
                seed: None,
                seed_addr: None,
                context,
            }),
    {
        let server_listen_addr = "0.0.0.0:30101".to_owned();
        let seed = None;
        let seed_addr = None;

        ClusterWorkerBuilder { server_listen_addr, context, seed, seed_addr }
    }

    /// The system that the worker is built for.
    pub fn context(&self) -> (context: &Ctx)
        ensures
            *context == self@.context,
    {
        &self.context
    }

    /// The source of seed nodes, where one was given.
    pub fn seed(&self) -> (seed: Option<&Seed>)
        ensures
            match seed {
                Some(seed) => self@.seed == Some(*seed),
                None => self@.seed is None,
            },
    {
        self.seed.as_ref()
    }

    pub fn with_seed(self, seed: Seed) -> (builder: Self)
        ensures
            builder@ == (BuilderView { seed: Some(seed), ..self@ }),
    {
        let mut builder = self;
        builder.seed = Some(seed);

        builder
    }

    pub fn with_seed_addr(self, seed_addr: String) -> (builder: Self)
        ensures
            builder@ == (BuilderView { seed_addr: Some(seed_addr@), ..self@ }),
    {
        let mut builder = self;
        builder.seed_addr = Some(seed_addr);

        builder
    }

    pub fn listen_addr(self, listen_addr: String) -> (builder: Self)
        ensures
            builder@ == (BuilderView { server_listen_addr: listen_addr@, ..self@ }),
    {
        let mut builder = self;
        builder.server_listen_addr = listen_addr;

        builder
    }

    /// The steps that bring up the worker whose system has the id `node_id`.
    pub fn start(self, node_id: NodeId) -> (start: WorkerStart<Ctx>)
        ensures
            start.context == self@.context,
            start.node.id == node_id,
            start.node.addr@ == self@.server_listen_addr,
            start.node.tag@ == Seq::<char>::empty(),
            start.node.node_started_at is None,
            addr_view(start.seed_addr) == self@.seed_addr,
            start.server_listen_addr@ == self@.server_listen_addr,
    {
        let node = RemoteNode::new(node_id, self.server_listen_addr.clone());
        WorkerStart {
            context: self.context,
            node,
            seed_addr: self.seed_addr,
            server_listen_addr: self.server_listen_addr,
        }
    }
}

impl<Ctx> WorkerStart<Ctx> {
    /// The seed as a node to register, once it was dialled and said that its
    /// id is `seed_node_id`. The seed is dealt with after that: a second call
    /// gives nothing, and so does a start without a seed.
    pub fn discover_peers(&mut self, seed_node_id: NodeId) -> (seed: Option<RemoteNode>)
        ensures
            final(self).seed_addr is None,
            final(self).context == old(self).context,
            final(self).node == old(self).node,
            final(self).server_listen_addr == old(self).server_listen_addr,
            match old(self).seed_addr {
                Some(seed_addr) => {
                    &&& seed matches Some(node)
                    &&& node.id == seed_node_id
                    &&& node.addr == seed_addr
                    &&& node.tag@ == Seq::<char>::empty()
                    &&& node.node_started_at is None
                },
                None => seed is None,
            },
    {
        match self.seed_addr.take() {
            Some(seed_addr) => Some(RemoteNode::new(seed_node_id, seed_addr)),
            None => None,
        }
    }
}

} // verus!
