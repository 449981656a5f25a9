//! Nodes of the cluster as a peer describes them.
use vstd::prelude::*;
use vstd::std_specs::cmp::PartialEqSpecImpl;

verus! {

/// Identifies one running instance of a node.
pub type NodeId = u64;

/// A point in time, in whole seconds since the Unix epoch and nanoseconds
/// within the second.
#[derive(Clone, Copy, Debug, PartialEq, Eq, Structural)]
pub struct Timestamp {
    pub seconds: u64,
    pub nanos: u32,
}

/// A node of the cluster. Two values describe the same node when their ids
/// are equal.
#[derive(Debug)]
pub struct RemoteNode {
    pub id: NodeId,
    pub addr: String,
    pub tag: String,
    pub node_started_at: Option<Timestamp>,
}

/// A node as contracts see it.
pub struct NodeModel {
    pub id: NodeId,
    pub addr: Seq<char>,
    pub tag: Seq<char>,
    pub node_started_at: Option<Timestamp>,
}

impl View for RemoteNode {
    type V = NodeModel;

    open spec fn view(&self) -> NodeModel {
        NodeModel {
            id: self.id,
            addr: self.addr@,
            tag: self.tag@,
            node_started_at: self.node_started_at,
        }
    }
}

/// `nodes` as contracts see them.
pub open spec fn node_models(nodes: Seq<RemoteNode>) -> Seq<NodeModel> {
    nodes.map_values(|node: RemoteNode| node@)
}

impl RemoteNode {
    /// A node known by id and address only.
    pub fn new(id: NodeId, addr: String) -> (node: RemoteNode)
        ensures
            node.id == id,
            node.addr == addr,
            node.tag@ == Seq::<char>::empty(),
            node.node_started_at.is_none(),
    {
        RemoteNode { id, addr, tag: String::new(), node_started_at: None }
    }

    /// A node as it describes itself in a handshake.
    pub fn described(
        id: NodeId,
        addr: String,
        tag: String,
        node_started_at: Option<Timestamp>,
    ) -> (node: RemoteNode)
        ensures
            node == (RemoteNode { id, addr, tag, node_started_at }),
    {
        RemoteNode { id, addr, tag, node_started_at }
    }
}

impl Clone for RemoteNode {
    fn clone(&self) -> (copy: RemoteNode)
        ensures
            copy == *self,
    {
        RemoteNode {
            id: self.id,
            addr: self.addr.clone(),
            tag: self.tag.clone(),
            node_started_at: self.node_started_at,
        }
    }
}

impl PartialEq for RemoteNode {
    fn eq(&self, other: &RemoteNode) -> (same: bool) {
        self.id == other.id
    }
}

impl PartialEqSpecImpl for RemoteNode {
    open spec fn obeys_eq_spec() -> bool {
        true
    }

    open spec fn eq_spec(&self, other: &RemoteNode) -> bool {
        self.id == other.id
    }
}

/// A copy of `nodes`, entry by entry.
pub fn clone_nodes(nodes: &Vec<RemoteNode>) -> (copy: Vec<RemoteNode>)
    ensures
        copy@ == nodes@,
{
    let mut copy: Vec<RemoteNode> = Vec::new();
    let mut i: usize = 0;
    while i < nodes.len()
        invariant
            i <= nodes.len(),
            copy@ == nodes@.take(i as int),
        decreases nodes.len() - i,
    {
        copy.push(nodes[i].clone());
        i += 1;
    }
    copy
}

/// The ids of `nodes`, in order.
pub open spec fn node_ids(nodes: Seq<RemoteNode>) -> Seq<NodeId> {
    nodes.map_values(|node: RemoteNode| node.id)
}

/// The nodes that a registry knows, one per id, in the order in which their
/// ids were first added.
#[derive(Debug)]
pub struct RemoteNodeStore {
    nodes: Vec<RemoteNode>,
}

impl View for RemoteNodeStore {
    type V = Seq<RemoteNode>;

    closed spec fn view(&self) -> Seq<RemoteNode> {
        self.nodes@
    }
}

/// `nodes` with `node` in the place of the node of the same id, or at the end
/// where no node has that id.
pub open spec fn with_node(nodes: Seq<RemoteNode>, node: RemoteNode) -> Seq<RemoteNode> {
    let at = node_ids(nodes).index_of(node.id);
    if node_ids(nodes).contains(node.id) {
        nodes.update(at, node)
    } else {
        nodes.push(node)
    }
}

impl RemoteNodeStore {
    /// No id occurs twice.
    pub open spec fn wf(&self) -> bool {
        node_ids(self@).no_duplicates()
    }

    pub fn new() -> (store: RemoteNodeStore)
        ensures
            store.wf(),
            store@ == Seq::<RemoteNode>::empty(),
    {
        RemoteNodeStore { nodes: Vec::new() }
    }

    /// Whether a node with this id is known.
    pub fn is_registered(&self, id: NodeId) -> (known: bool)
        ensures
            known == node_ids(self@).contains(id),
    {
        let mut i: usize = 0;
        while i < self.nodes.len()
            invariant
                i <= self.nodes.len(),
                !node_ids(self.nodes@.take(i as int)).contains(id),
            decreases self.nodes.len() - i,
        {
            if self.nodes[i].id == id {
                assert(node_ids(self@)[i as int] == id);
                return true;
            }
            proof {
                let seen = node_ids(self.nodes@.take(i as int));
                let more = node_ids(self.nodes@.take(i as int + 1));
                assert(more =~= seen.push(self.nodes@[i as int].id));
                assert forall|k: int| 0 <= k < more.len() implies more[k] != id by {
                    if k < seen.len() {
                        assert(seen[k] == more[k]);
                        assert(seen.contains(seen[k]));
                    }
                }
            }
            i += 1;
        }
        assert(self.nodes@.take(i as int) =~= self@);
        false
    }

    /// Makes `node` known, in the place of what was known under its id.
    pub fn add(&mut self, node: RemoteNode)
        requires
            old(self).wf(),
        ensures
            final(self).wf(),
            final(self)@ == with_node(old(self)@, node),
    {
        let ghost ids = node_ids(self@);
        let mut i: usize = 0;
        while i < self.nodes.len()
            invariant
                i <= self.nodes.len(),
                self.nodes@ == old(self).nodes@,
                ids == node_ids(self.nodes@),
                ids.no_duplicates(),
                forall|k: int| 0 <= k < i ==> ids[k] != node.id,
            decreases self.nodes.len() - i,
        {
            if self.nodes[i].id == node.id {
                proof {
                    assert(ids[i as int] == node.id);
                    assert(ids.contains(node.id));
                    ids.index_of_first_ensures(node.id);
                    let at = ids.index_of(node.id);
                    assert(ids[at] == node.id);
                    assert(at == i);
                    assert(node_ids(self.nodes@.update(i as int, node)) =~= ids);
                }
                self.nodes.set(i, node);
                return ;
            }
            i += 1;
        }
        proof {
            assert(!ids.contains(node.id));
            let after = node_ids(self.nodes@.push(node));
            assert(after =~= ids.push(node.id));
            assert forall|a: int, b: int| 0 <= a < after.len() && 0 <= b < after.len() && a
                != b implies after[a] != after[b] by {
                if a < ids.len() {
                    assert(ids.contains(ids[a]));
                }
                if b < ids.len() {
                    assert(ids.contains(ids[b]));
                }
            }
        }
        self.nodes.push(node);
    }

    /// A copy of every known node.
    pub fn get_all(&self) -> (nodes: Vec<RemoteNode>)
        ensures
            nodes@ == self@,
    {
        clone_nodes(&self.nodes)
    }
}

} // verus!
