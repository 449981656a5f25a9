//! How the registry and the request table answer.
use crate::drain::oldest_on_top;
use crate::remote::actor::message::{
    ClientWrite, GetNodes, PopRequest, PushRequest, RegisterClient, RegisterNodes,
};
use crate::remote::actor::{RegistryView, RemoteHandler, RemoteRegistry};
use crate::remote::cluster::node::{node_ids, NodeId, RemoteNode};
use std::collections::HashMap;
use vstd::prelude::*;

verus! {

/// The ids of the nodes that were dialled, in order.
pub open spec fn dialled_ids<C>(dialled: Seq<(RemoteNode, Option<C>)>) -> Seq<NodeId> {
    dialled.map_values(|dial: (RemoteNode, Option<C>)| dial.0.id)
}

/// The outcome of the last dial of each node id. Each entry of `dialled` is a
/// node with what dialling it brought: its client, or `None`.
pub open spec fn dial_results<C>(dialled: Seq<(RemoteNode, Option<C>)>) -> Map<NodeId, Option<C>>
    decreases dialled.len(),
{
    if dialled.len() == 0 {
        Map::empty()
    } else {
        dial_results(dialled.drop_last()).insert(dialled.last().0.id, dialled.last().1)
    }
}

/// `clients` with every client that `results` hold: a node whose dial failed
/// keeps the client it had, if it had one.
pub open spec fn with_connected<C>(
    clients: Map<NodeId, C>,
    results: Map<NodeId, Option<C>>,
) -> Map<NodeId, C> {
    Map::new(
        |id: NodeId| clients.contains_key(id) || (results.contains_key(id) && results[id] is Some),
        |id: NodeId|
            if results.contains_key(id) && results[id] is Some {
                results[id]->Some_0
            } else {
                clients[id]
            },
    )
}

/// Where the registry stands on the node `id` while it takes the outcomes of
/// dials: the nodes in `seen` are done with, the outcomes of the others are
/// still `pending`.
spec fn settled<C>(
    id: NodeId,
    seen: Seq<NodeId>,
    pending: Map<NodeId, Option<C>>,
    registered: Map<NodeId, C>,
    results: Map<NodeId, Option<C>>,
    held: Map<NodeId, C>,
) -> bool {
    let merged = with_connected(held, results);
    if seen.contains(id) {
        &&& !pending.contains_key(id)
        &&& registered.contains_key(id) == merged.contains_key(id)
        &&& merged.contains_key(id) ==> registered[id] == merged[id]
    } else {
        &&& pending.contains_key(id) == results.contains_key(id)
        &&& results.contains_key(id) ==> pending[id] == results[id]
        &&& registered.contains_key(id) == held.contains_key(id)
        &&& held.contains_key(id) ==> registered[id] == held[id]
    }
}

/// What a sequence with one more entry contains.
proof fn lemma_contains_push(ids: Seq<NodeId>, last: NodeId, id: NodeId)
    ensures
        ids.push(last).contains(id) <==> ids.contains(id) || id == last,
{
    let more = ids.push(last);
    if more.contains(id) {
        let at = choose|at: int| 0 <= at < more.len() && more[at] == id;
        if at < ids.len() {
            assert(ids[at] == id);
        }
    }
    if ids.contains(id) {
        let at = choose|at: int| 0 <= at < ids.len() && ids[at] == id;
        assert(more[at] == id);
    }
    if id == last {
        assert(more[ids.len() as int] == id);
    }
}

/// There is an outcome for exactly the ids that were dialled.
proof fn lemma_dial_results_dom<C>(dialled: Seq<(RemoteNode, Option<C>)>, id: NodeId)
    ensures
        dial_results(dialled).contains_key(id) <==> dialled_ids(dialled).contains(id),
    decreases dialled.len(),
{
    if dialled.len() > 0 {
        lemma_dial_results_dom(dialled.drop_last(), id);
        assert(dialled_ids(dialled.drop_last()).push(dialled.last().0.id) =~= dialled_ids(
            dialled,
        ));
        lemma_contains_push(dialled_ids(dialled.drop_last()), dialled.last().0.id, id);
    }
}

/// Records what dialling brought: each entry of `dialled` is a node with its
/// client, or with `None` where the dial failed. Of a node that occurs more
/// than once the last dial counts.
pub fn connect_all<C>(dialled: Vec<(RemoteNode, Option<C>)>) -> (clients: HashMap<
    NodeId,
    Option<C>,
>)
    ensures
        clients@ == dial_results(dialled@),
{
    let ghost all = dialled@;
    let mut clients: HashMap<NodeId, Option<C>> = HashMap::new();
    let mut rest = oldest_on_top(dialled);
    proof {
        assert(all.take(0) =~= Seq::empty());
    }
    loop
        invariant
            rest@.len() <= all.len(),
            rest@ == all.reverse().take(rest@.len() as int),
            clients@ == dial_results(all.take(all.len() - rest@.len())),
        ensures
            clients@ == dial_results(all),
        decreases rest@.len(),
    {
        let ghost done = all.len() - rest@.len();
        match rest.pop() {
            Some((node, client)) => {
                proof {
                    assert((node, client) == all[done]);
                    assert(rest@ =~= all.reverse().take(rest@.len() as int));
                    assert(all.take(done + 1).drop_last() =~= all.take(done));
                    assert(all.take(done + 1).last() == all[done]);
                }
                clients.insert(node.id, client);
            },
            None => {
                assert(all.take(done) =~= all);
                break ;
            },
        }
    }
    clients
}

/// The ids of the nodes that were dialled, in order.
fn ids_of<C>(dialled: &Vec<(RemoteNode, Option<C>)>) -> (ids: Vec<NodeId>)
    ensures
        ids@ == dialled_ids(dialled@),
{
    let mut ids: Vec<NodeId> = Vec::new();
    let mut i: usize = 0;
    while i < dialled.len()
        invariant
            i <= dialled.len(),
            ids@ == dialled_ids(dialled@.take(i as int)),
        decreases dialled.len() - i,
    {
        proof {
            assert(dialled_ids(dialled@.take(i as int + 1)) =~= dialled_ids(
                dialled@.take(i as int),
            ).push(dialled@[i as int].0.id));
        }
        ids.push(dialled[i].0.id);
        i += 1;
    }
    proof {
        assert(dialled@.take(i as int) =~= dialled@);
    }
    ids
}

impl<C> RemoteRegistry<C> {
    /// A copy of every known node.
    pub fn handle_get_nodes(&self, _message: GetNodes) -> (nodes: Vec<RemoteNode>)
        ensures
            nodes@ == self@.nodes,
    {
        self.nodes.get_all()
    }

    /// Holds the client of a node, in the place of the client held before.
    pub fn handle_register_client(&mut self, message: RegisterClient<C>)
        requires
            old(self).wf(),
        ensures
            final(self).wf(),
            final(self)@ == (RegistryView {
                clients: old(self)@.clients.insert(message.0, message.1),
                ..old(self)@
            }),
    {
        self.add_client(message.0, message.1);
    }

    /// The nodes of `message` that are not known yet, in their order. These
    /// are the nodes to dial.
    pub fn unregistered(&self, message: RegisterNodes) -> (unknown: Vec<RemoteNode>)
        ensures
            unknown@ == message.0@.filter(
                |node: RemoteNode| !node_ids(self@.nodes).contains(node.id),
            ),
    {
        let ghost all = message.0@;
        let ghost is_new = |node: RemoteNode| !node_ids(self@.nodes).contains(node.id);
        let mut rest = oldest_on_top(message.0);
        let mut unknown: Vec<RemoteNode> = Vec::new();
        proof {
            reveal(Seq::filter);
            assert(all.take(0) =~= Seq::<RemoteNode>::empty());
        }
        loop
            invariant
                rest@.len() <= all.len(),
                rest@ == all.reverse().take(rest@.len() as int),
                unknown@ == all.take(all.len() - rest@.len()).filter(is_new),
                is_new == |node: RemoteNode| !node_ids(self@.nodes).contains(node.id),
            ensures
                unknown@ == all.filter(is_new),
            decreases rest@.len(),
        {
            let ghost done = all.len() - rest@.len();
            match rest.pop() {
                Some(node) => {
                    proof {
                        reveal(Seq::filter);
                        assert(node == all[done]);
                        assert(rest@ =~= all.reverse().take(rest@.len() as int));
                        assert(all.take(done + 1).drop_last() =~= all.take(done));
                    }
                    if !self.nodes.is_registered(node.id) {
                        unknown.push(node);
                    }
                },
                None => {
                    assert(all.take(done) =~= all);
                    break ;
                },
            }
        }
        unknown
    }

    /// Takes the clients of the nodes that were dialled: each entry of
    /// `dialled` is a node with its client, or with `None` where the dial
    /// failed. A dial that failed changes nothing and is not tried again
    /// here.
    pub fn handle_register_nodes(&mut self, dialled: Vec<(RemoteNode, Option<C>)>)
        requires
            old(self).wf(),
        ensures
            final(self).wf(),
            final(self)@ == (RegistryView {
                clients: with_connected(old(self)@.clients, dial_results(dialled@)),
                ..old(self)@
            }),
    {
        let ghost held = self.clients@;
        let ghost results = dial_results(dialled@);
        let ids = ids_of(&dialled);
        let mut clients = connect_all(dialled);
        let mut i: usize = 0;
        while i < ids.len()
            invariant
                i <= ids.len(),
                self.wf(),
                self@.nodes == old(self)@.nodes,
                forall|id: NodeId|
                    settled(id, ids@.take(i as int), clients@, self.clients@, results, held),
            decreases ids.len() - i,
        {
            let node_id = ids[i];
            let ghost pending = clients@;
            let ghost registered = self.clients@;
            match clients.remove(&node_id) {
                Some(Some(client)) => {
                    self.add_client(node_id, client);
                },
                _ => {},
            }
            proof {
                let seen = ids@.take(i as int);
                let seen_now = ids@.take(i as int + 1);
                assert(seen_now =~= seen.push(node_id));
                assert forall|id: NodeId|
                    settled(id, seen_now, clients@, self.clients@, results, held) by {
                    assert(settled(id, seen, pending, registered, results, held));
                    lemma_contains_push(seen, node_id, id);
                }
            }
            i += 1;
        }
        proof {
            assert(ids@.take(i as int) =~= ids@);
            let merged = with_connected(held, results);
            assert forall|id: NodeId|
                #![trigger self.clients@.dom().contains(id)]
                #![trigger merged.dom().contains(id)]
                self.clients@.dom().contains(id) == merged.dom().contains(id) && (
                merged.dom().contains(id) ==> self.clients@[id] == merged[id]) by {
                assert(settled(id, ids@, clients@, self.clients@, results, held));
                lemma_dial_results_dom(dialled@, id);
            }
            assert(self.clients@.dom() =~= merged.dom());
            assert(self.clients@ =~= merged);
        }
    }

    /// The client to write the bytes of `message` to, with the bytes. `None`
    /// where no client is held for the node: the bytes are dropped.
    pub fn handle_client_write(&self, message: ClientWrite) -> (write: Option<(&C, Vec<u8>)>)
        ensures
            match write {
                Some((client, bytes)) => self@.clients.contains_key(message.0) && *client
                    == self@.clients[message.0] && bytes == message.1,
                None => !self@.clients.contains_key(message.0),
            },
    {
        match self.clients.get(&message.0) {
            Some(client) => Some((client, message.1)),
            None => None,
        }
    }
}

impl<Q> RemoteHandler<Q> {
    /// Lets a request wait for its reply, in the place of a request that
    /// waited under the same correlation id.
    pub fn handle_push_request(&mut self, message: PushRequest<Q>)
        ensures
            final(self)@ == old(self)@.insert(message.0, message.1),
    {
        self.requests.insert(message.0, message.1);
    }

    /// Takes every request out of the table. This is for the loss of the
    /// session: no reply to any of them will come, and each is to be told so.
    pub fn handle_disconnected(&mut self) -> (waiting: HashMap<u128, Q>)
        ensures
            final(self)@ == Map::<u128, Q>::empty(),
            waiting@ == old(self)@,
    {
        let mut waiting: HashMap<u128, Q> = HashMap::new();
        core::mem::swap(&mut self.requests, &mut waiting);
        waiting
    }

    /// Takes the request that waits under a correlation id out of the table.
    pub fn handle_pop_request(&mut self, message: PopRequest) -> (request: Option<Q>)
        ensures
            final(self)@ == old(self)@.remove(message.0),
            request == if old(self)@.contains_key(message.0) {
                Some(old(self)@[message.0])
            } else {
                None
            },
    {
        self.requests.remove(&message.0)
    }
}

} // verus!
