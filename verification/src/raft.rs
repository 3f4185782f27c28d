//! Cluster membership types and the peer registry of the replication layer.

use vstd::prelude::*;
use std::collections::HashMap;
use crate::ids::{JobId, RunId};
use crate::job::Job;
use crate::run::{Run, RunState};
use crate::text::string_of_str;
use vstd::std_specs::iter::IteratorSpec;

verus! {

/// Stable cluster node identifier: a small monotonic integer assigned at
/// `cluster join` time. `0` is reserved for "unset".
pub type NodeId = u64;

/// Addressable peer descriptor stored in the cluster membership.
#[derive(Debug, PartialEq, Eq)]
pub struct Node {
    /// Stable node id.
    pub id: NodeId,
    /// `host:port` used by the network layer to dial this peer.
    pub addr: String,
}

/// Model of a [`Node`].
pub struct NodeV {
    pub id: NodeId,
    pub addr: Seq<char>,
}

impl View for Node {
    type V = NodeV;

    open spec fn view(&self) -> NodeV {
        NodeV { id: self.id, addr: self.addr@ }
    }
}

impl Clone for Node {
    fn clone(&self) -> (n: Self)
        ensures
            n@ == self@,
    {
        Node { id: self.id, addr: self.addr.clone() }
    }
}

/// An optional node by its model.
pub open spec fn opt_node(n: Option<Node>) -> Option<NodeV> {
    match n {
        Some(x) => Some(x@),
        None => None,
    }
}

impl Node {
    /// Construct a new node descriptor.
    pub fn new(id: NodeId, addr: &str) -> (n: Self)
        ensures
            n.id == id,
            n.addr@ == addr@,
    {
        Node { id, addr: string_of_str(addr) }
    }
}

impl Default for Node {
    fn default() -> (n: Self)
        ensures
            n.id == 0,
            n.addr@ == Seq::<char>::empty(),
    {
        Node { id: 0, addr: String::new() }
    }
}

/// Application request replicated through the log: every mutation of the
/// scheduler's state travels as one of these.
#[derive(Debug, Clone, PartialEq, Eq)]
pub enum RsRaftReq {
    /// Insert a new job definition.
    InsertJob(Job),
    /// Replace an existing job definition.
    UpdateJob(Job),
    /// Delete a job by id.
    DeleteJob(JobId),
    /// Set a global variable (Autosys `sendevent -E SET_GLOBAL`).
    SetGlobal {
        /// Global name.
        name: String,
        /// New value.
        value: String,
    },
    /// Insert a new run record.
    InsertRun(Run),
    /// Update a run's state (e.g. on completion).
    UpdateRun {
        /// Run whose state changes.
        run_id: RunId,
        /// New state.
        state: RunState,
    },
}

/// Application reply for a replicated request: `Ok(())` on success or
/// `Err(message)` on a state-machine-level failure.
pub type RsRaftResp = Result<(), String>;

/// Registry of peer descriptors keyed by [`NodeId`], from which per-peer
/// clients are made.
pub struct RaftNetworkFactory {
    peers: HashMap<NodeId, Node>,
}

impl View for RaftNetworkFactory {
    type V = Map<NodeId, NodeV>;

    closed spec fn view(&self) -> Map<NodeId, NodeV> {
        self.peers@.map_values(|n: Node| n@)
    }
}

impl RaftNetworkFactory {
    /// Each peer is registered under its own id.
    #[verifier::type_invariant]
    spec fn keyed_by_id(&self) -> bool {
        forall|k: NodeId| #[trigger] self.peers@.contains_key(k) ==> self.peers@[k].id == k
    }

    /// An empty registry; peers are registered later via
    /// [`Self::register_peer`].
    pub fn new() -> (f: Self)
        ensures
            f@ == Map::<NodeId, NodeV>::empty(),
    {
        RaftNetworkFactory { peers: HashMap::new() }
    }

    /// Record a peer descriptor (replacing one with the same id) so future
    /// RPCs can dial it.
    pub fn register_peer(&mut self, node: Node)
        ensures
            final(self)@ == old(self)@.insert(node.id, node@),
    {
        proof {
            use_type_invariant(&*self);
        }
        let id = node.id;
        let ghost nv = node@;
        let mut peers: HashMap<NodeId, Node> = HashMap::new();
        std::mem::swap(&mut peers, &mut self.peers);
        peers.insert(id, node);
        self.peers = peers;
        assert(self.peers@.map_values(|n: Node| n@) =~= old(self).peers@.map_values(|n: Node| n@).insert(id, nv));
    }

    /// Number of registered peers.
    pub fn len(&self) -> (n: usize)
        ensures
            n == self@.len(),
    {
        assert(self.peers@.map_values(|n: Node| n@).dom() =~= self.peers@.dom());
        self.peers.len()
    }

    /// Whether the registry is empty.
    pub fn is_empty(&self) -> (b: bool)
        ensures
            b == (self@.len() == 0),
    {
        self.len() == 0
    }

    /// The registered peer with id `target`, if any.
    pub fn peer(&self, target: NodeId) -> (n: Option<Node>)
        ensures
            opt_node(n) == (if self@.contains_key(target) {
                Some(self@[target])
            } else {
                None::<NodeV>
            }),
    {
        match self.peers.get(&target) {
            Some(n) => Some(n.clone()),
            None => None,
        }
    }

    /// Every registered peer once, in the registry's own order.
    pub fn peers(&self) -> (r: Vec<Node>)
        ensures
            r@.len() == self@.len(),
            forall|i: int|
                0 <= i < r@.len() ==> #[trigger] self@.contains_key(r@[i].id) && self@[r@[i].id]
                    == r@[i]@,
            forall|k: NodeId| #[trigger]
                self@.contains_key(k) ==> exists|i: int| 0 <= i < r@.len() && r@[i].id == k,
    {
        proof {
            use_type_invariant(self);
        }
        broadcast use vstd::std_specs::hash::group_hash_axioms;
        let mut r: Vec<Node> = Vec::new();
        let ghost m = self.peers@;
        let ghost all = vstd::std_specs::hash::spec_hash_map_iter(&self.peers).remaining();
        proof {
            vstd::std_specs::hash::axiom_spec_hash_map_iter(&self.peers);
        }
        for kv in it: self.peers.iter()
            invariant
                m == self.peers@,
                it.seq() == all,
                all.len() == m.dom().len(),
                forall|i: int|
                    0 <= i < all.len() ==> m.contains_key(*all[i].0) && m[*all[i].0] == *all[i].1,
                forall|k: NodeId| #[trigger] m.contains_key(k) ==> all.contains((&k, &m[k])),
                forall|k: NodeId| #[trigger] m.contains_key(k) ==> m[k].id == k,
                r@.len() == it.index(),
                forall|i: int| 0 <= i < r@.len() ==> r@[i]@ == (*all[i].1)@ && r@[i].id == (*all[i].1).id,
        {
            r.push(kv.1.clone());
        }
        assert(r@.len() == all.len());
        proof {
            assert(self.peers@.map_values(|n: Node| n@).dom() =~= self.peers@.dom());
            assert forall|i: int| 0 <= i < r@.len() implies #[trigger] self@.contains_key(r@[i].id)
                && self@[r@[i].id] == r@[i]@ by {
                let k = *all[i].0;
                assert(m.contains_key(k) && m[k] == *all[i].1);
                assert(m[k].id == k);
            }
            assert forall|k: NodeId| #[trigger] self@.contains_key(k) implies exists|i: int|
                0 <= i < r@.len() && r@[i].id == k by {
                assert(m.contains_key(k));
                assert(all.contains((&k, &m[k])));
                let i = choose|i: int| 0 <= i < all.len() && all[i] == (&k, &m[k]);
                assert(r@[i].id == k);
            }
        }
        r
    }

    /// A per-peer client for `target`, carrying its descriptor when registered.
    pub fn client(&self, target: NodeId) -> (c: RaftNetworkClient)
        ensures
            c.target() == target,
            opt_node(c.node()) == (if self@.contains_key(target) {
                Some(self@[target])
            } else {
                None::<NodeV>
            }),
    {
        let node = self.peer(target);
        RaftNetworkClient { target, node }
    }
}

/// Per-peer Raft RPC client. No RPC is issued yet: every call answers with
/// an error naming the missing operation.
pub struct RaftNetworkClient {
    target: NodeId,
    node: Option<Node>,
}

impl RaftNetworkClient {
    /// The peer this client talks to.
    pub closed spec fn target(&self) -> NodeId {
        self.target
    }

    /// The peer's descriptor, when it was registered.
    pub closed spec fn node(&self) -> Option<Node> {
        self.node
    }

    /// Send an AppendEntries RPC.
    pub fn append_entries(&self) -> (r: Result<(), String>)
        ensures
            r is Err && r->Err_0@ == "raft network: append_entries not implemented"@,
    {
        Err(string_of_str("raft network: append_entries not implemented"))
    }

    /// Send an InstallSnapshot RPC.
    pub fn install_snapshot(&self) -> (r: Result<(), String>)
        ensures
            r is Err && r->Err_0@ == "raft network: install_snapshot not implemented"@,
    {
        Err(string_of_str("raft network: install_snapshot not implemented"))
    }

    /// Send a Vote RPC.
    pub fn vote(&self) -> (r: Result<(), String>)
        ensures
            r is Err && r->Err_0@ == "raft network: vote not implemented"@,
    {
        Err(string_of_str("raft network: vote not implemented"))
    }
}

/// The map a registry holds after registering `peers` in order (a later
/// peer with the same id replaces an earlier one).
pub open spec fn registered(peers: Seq<Node>) -> Map<NodeId, NodeV>
    decreases peers.len(),
{
    if peers.len() == 0 {
        Map::empty()
    } else {
        registered(peers.drop_last()).insert(peers.last().id, peers.last()@)
    }
}

/// Nodes by their models.
pub open spec fn node_views(peers: Seq<Node>) -> Seq<NodeV> {
    peers.map_values(|n: Node| n@)
}

/// Applies committed requests to the scheduler's state held in `store`.
/// Every request is accepted: the replicated path is not wired to the
/// store yet.
pub struct RaftStateMachine<S> {
    store: S,
}

impl<S> RaftStateMachine<S> {
    /// A state machine over `store`.
    pub fn new(store: S) -> (r: Self)
        ensures
            r.store_of() == store,
    {
        RaftStateMachine { store }
    }

    /// The store the machine applies to.
    pub closed spec fn store_of(&self) -> S {
        self.store
    }

    /// Access the underlying store.
    pub fn store(&self) -> (r: &S)
        ensures
            *r == self.store_of(),
    {
        &self.store
    }

    /// Apply a committed request; every request is accepted.
    pub fn apply(&self, req: RsRaftReq) -> (r: RsRaftResp)
        ensures
            r is Ok,
    {
        match req {
            RsRaftReq::InsertJob(_) => Ok(()),
            RsRaftReq::UpdateJob(_) => Ok(()),
            RsRaftReq::DeleteJob(_) => Ok(()),
            RsRaftReq::SetGlobal { .. } => Ok(()),
            RsRaftReq::InsertRun(_) => Ok(()),
            RsRaftReq::UpdateRun { .. } => Ok(()),
        }
    }
}

/// Handle on this node's replication layer: its id, address, peers, state
/// machine and peer registry. It does not elect leaders yet, so it never
/// leads.
pub struct RsRaft<S> {
    node_id: NodeId,
    bind: String,
    peers: Vec<Node>,
    state_machine: RaftStateMachine<S>,
    network: RaftNetworkFactory,
}

impl<S> RsRaft<S> {
    /// The peers given at start.
    pub closed spec fn peer_list(&self) -> Seq<NodeV> {
        node_views(self.peers@)
    }

    /// The registry built at start.
    pub closed spec fn registry(&self) -> Map<NodeId, NodeV> {
        self.network@
    }

    /// Id and bind address given at start.
    pub closed spec fn identity(&self) -> (NodeId, Seq<char>) {
        (self.node_id, self.bind@)
    }

    /// The store the state machine applies to.
    pub closed spec fn store_of(&self) -> S {
        self.state_machine.store_of()
    }

    /// Start the node: record its peers, register each with the peer
    /// registry, and set up the state machine over `store`.
    pub fn start(node_id: NodeId, store: S, peers: Vec<Node>, bind: &str) -> (r: Self)
        ensures
            r.identity() == (node_id, bind@),
            r.peer_list() == node_views(peers@),
            r.registry() == registered(peers@),
            r.store_of() == store,
    {
        let mut network = RaftNetworkFactory::new();
        let mut i: usize = 0;
        while i < peers.len()
            invariant
                i <= peers@.len(),
                network@ == registered(peers@.subrange(0, i as int)),
            decreases peers.len() - i,
        {
            network.register_peer(peers[i].clone());
            proof {
                assert(peers@.subrange(0, i + 1).drop_last() =~= peers@.subrange(0, i as int));
            }
            i = i + 1;
        }
        assert(peers@.subrange(0, i as int) =~= peers@);
        let state_machine = RaftStateMachine::new(store);
        RsRaft { node_id, bind: string_of_str(bind), peers, state_machine, network }
    }

    /// This node's id.
    pub fn node_id(&self) -> (r: NodeId)
        ensures
            r == self.identity().0,
    {
        self.node_id
    }

    /// Address this node binds to.
    pub fn bind(&self) -> (r: &str)
        ensures
            r@ == self.identity().1,
    {
        self.bind.as_str()
    }

    /// Peers given at start.
    pub fn peers(&self) -> (r: &Vec<Node>)
        ensures
            node_views(r@) == self.peer_list(),
    {
        &self.peers
    }

    /// The state machine.
    pub fn state_machine(&self) -> (r: &RaftStateMachine<S>)
        ensures
            r.store_of() == self.store_of(),
    {
        &self.state_machine
    }

    /// The peer registry.
    pub fn network(&self) -> (r: &RaftNetworkFactory)
        ensures
            r@ == self.registry(),
    {
        &self.network
    }

    /// Whether this node leads the cluster: never, until elections run.
    pub fn is_leader(&self) -> (r: bool)
        ensures
            !r,
    {
        false
    }
}

/// Starting with a list of peers registers exactly their ids, each mapped to
/// the last peer given under it.
pub proof fn lemma_registered_ids(peers: Seq<Node>, k: NodeId)
    ensures
        registered(peers).contains_key(k) <==> exists|i: int| 0 <= i < peers.len() && #[trigger] peers[i].id == k,
        registered(peers).contains_key(k) ==> exists|i: int|
            0 <= i < peers.len() && peers[i].id == k && registered(peers)[k] == #[trigger] peers[i]@
                && forall|j: int| i < j < peers.len() ==> peers[j].id != k,
    decreases peers.len(),
{
    if peers.len() > 0 {
        let init = peers.drop_last();
        lemma_registered_ids(init, k);
        let n = peers.len() - 1;
        if peers.last().id == k {
            assert(peers[n].id == k);
        } else {
            if registered(init).contains_key(k) {
                let i = choose|i: int|
                    0 <= i < init.len() && init[i].id == k && registered(init)[k] == #[trigger] init[i]@
                        && forall|j: int| i < j < init.len() ==> init[j].id != k;
                assert(peers[i] == init[i]);
                assert forall|j: int| i < j < peers.len() implies peers[j].id != k by {
                    if j < n {
                        assert(peers[j] == init[j]);
                    }
                }
            }
            assert((exists|i: int| 0 <= i < peers.len() && #[trigger] peers[i].id == k) ==> exists|i: int|
                0 <= i < init.len() && #[trigger] init[i].id == k) by {
                if exists|i: int| 0 <= i < peers.len() && #[trigger] peers[i].id == k {
                    let i = choose|i: int| 0 <= i < peers.len() && #[trigger] peers[i].id == k;
                    assert(i < n);
                    assert(init[i] == peers[i]);
                }
            }
            assert((exists|i: int| 0 <= i < init.len() && #[trigger] init[i].id == k) ==> exists|i: int|
                0 <= i < peers.len() && #[trigger] peers[i].id == k) by {
                if exists|i: int| 0 <= i < init.len() && #[trigger] init[i].id == k {
                    let i = choose|i: int| 0 <= i < init.len() && #[trigger] init[i].id == k;
                    assert(init[i] == peers[i]);
                }
            }
        }
    }
}

/// Registering a peer makes it the one answered for its id, and keeps the
/// other peers.
pub proof fn lemma_register_then_lookup(m: Map<NodeId, NodeV>, node: NodeV, other: NodeId)
    ensures
        m.insert(node.id, node).contains_key(node.id),
        m.insert(node.id, node)[node.id] == node,
        other != node.id ==> (m.insert(node.id, node).contains_key(other) == m.contains_key(other)),
        other != node.id && m.contains_key(other) ==> m.insert(node.id, node)[other] == m[other],
{
}

} // verus!
