use vstd::prelude::*;

use crate::node_id::NodeId;
use crate::node_map::{NodeMap, keys_distinct, lemma_entry_in_map, lemma_map_dom, index_of, has_key};
use crate::types::{ConnectionManagerError, PeerConnectionState};

verus! {

broadcast use vstd::set::group_set_axioms;

/// The connections of a table, by node id: each one's last known state and its handle.
pub type ConnectionMap<C> = Map<Seq<u8>, (PeerConnectionState, C)>;

/// The nodes whose connection is active.
pub open spec fn active_nodes<C>(m: ConnectionMap<C>) -> Set<Seq<u8>> {
    m.dom().filter(|k: Seq<u8>| m[k].0.active())
}

/// The number of active connections.
pub open spec fn active_count<C>(m: ConnectionMap<C>) -> nat {
    active_nodes(m).len()
}

/// The live connections to peers, at most one per node, of which at most
/// `max_connections` may be active when a new one is added.
pub struct LivePeerConnections<C> {
    repository: NodeMap<(PeerConnectionState, C)>,
    max_connections: usize,
}

impl<C> LivePeerConnections<C> {
    /// Well-formedness: at most one connection per node.
    pub closed spec fn wf(&self) -> bool {
        self.repository.wf()
    }

    /// The limit on active connections.
    pub closed spec fn max(&self) -> nat {
        self.max_connections as nat
    }

    /// An empty table admitting at most `max_connections` active connections.
    pub fn with_max_connections(max_connections: usize) -> (r: LivePeerConnections<C>)
        ensures
            r.wf(),
            r@ == ConnectionMap::<C>::empty(),
            r.max() == max_connections,
            active_count(r@) == 0,
    {
        let r = LivePeerConnections { repository: NodeMap::new(), max_connections };
        assert(active_nodes(r@) =~= Set::<Seq<u8>>::empty());
        r
    }

    /// The state and handle of the connection to `node_id`, if there is one.
    pub fn get(&self, node_id: &NodeId) -> (r: Option<&(PeerConnectionState, C)>)
        requires
            self.wf(),
        ensures
            r == (if self@.dom().contains(node_id@) {
                Some(&self@[node_id@])
            } else {
                None
            }),
    {
        self.repository.get(node_id)
    }

    /// The handle of the connection to `node_id`, if there is one.
    pub fn get_connection(&self, node_id: &NodeId) -> (r: Option<&C>)
        requires
            self.wf(),
        ensures
            r == (if self@.dom().contains(node_id@) {
                Some(&self@[node_id@].1)
            } else {
                None
            }),
    {
        match self.repository.get(node_id) {
            Some(entry) => Some(&entry.1),
            None => None,
        }
    }

    /// The nodes that have a connection, each once.
    pub fn node_ids(&self) -> (r: Vec<NodeId>)
        requires
            self.wf(),
        ensures
            r@.len() == self@.dom().len(),
            forall|i: int, j: int|
                #![trigger r@[i], r@[j]]
                0 <= i < r@.len() && 0 <= j < r@.len() && i != j ==> r@[i]@ != r@[j]@,
            forall|i: int| 0 <= i < r@.len() ==> self@.dom().contains(#[trigger] r@[i]@),
            forall|k: Seq<u8>|
                #[trigger] self@.dom().contains(k) ==> exists|i: int| 0 <= i < r@.len() && #[trigger] r@[i]@ == k,
    {
        self.repository.keys()
    }

    /// The number of connections, active or not.
    pub fn len(&self) -> (r: usize)
        requires
            self.wf(),
        ensures
            r == self@.dom().len(),
    {
        self.repository.len()
    }

    /// The number of active connections.
    pub fn get_active_connection_count(&self) -> (r: usize)
        requires
            self.wf(),
        ensures
            r == active_count(self@),
    {
        let entries = self.repository.entries();
        let ghost s = entries@;
        let ghost m = self@;
        let n = entries.len();
        let mut count: usize = 0;
        let mut i: usize = 0;
        let ghost mut seen: Set<Seq<u8>> = Set::empty();
        while i < n
            invariant
                n == s.len(),
                entries@ == s,
                s == self.repository.entries_view(),
                keys_distinct(s),
                i <= n,
                count <= i,
                seen.finite(),
                count == seen.len(),
                forall|k: Seq<u8>|
                    #[trigger] seen.contains(k) <==> exists|j: int|
                        0 <= j < i && #[trigger] s[j].0@ == k && s[j].1.0.active(),
            decreases n - i,
        {
            let ghost k = s[i as int].0@;
            if entries[i].1.0.is_active() {
                proof {
                    assert(!seen.contains(k)) by {
                        if seen.contains(k) {
                            let j = choose|j: int| 0 <= j < i && #[trigger] s[j].0@ == k && s[j].1.0.active();
                            assert(s[j].0@ != s[i as int].0@);
                        }
                    }
                    seen = seen.insert(k);
                    assert forall|k2: Seq<u8>|
                        #[trigger] seen.contains(k2) <==> exists|j: int|
                            0 <= j < i + 1 && #[trigger] s[j].0@ == k2 && s[j].1.0.active() by {
                        if k2 == k {
                            assert(s[i as int].0@ == k2);
                        }
                    }
                }
                count = count + 1;
            } else {
                proof {
                    assert forall|k2: Seq<u8>|
                        #[trigger] seen.contains(k2) <==> exists|j: int|
                            0 <= j < i + 1 && #[trigger] s[j].0@ == k2 && s[j].1.0.active() by {
                        if exists|j: int| 0 <= j < i + 1 && #[trigger] s[j].0@ == k2 && s[j].1.0.active() {
                            let j = choose|j: int| 0 <= j < i + 1 && #[trigger] s[j].0@ == k2 && s[j].1.0.active();
                            assert(j != i);
                        }
                    }
                }
            }
            i = i + 1;
        }
        proof {
            assert forall|k: Seq<u8>| #[trigger] seen.contains(k) <==> active_nodes(m).contains(k) by {
                if seen.contains(k) {
                    let j = choose|j: int| 0 <= j < n && #[trigger] s[j].0@ == k && s[j].1.0.active();
                    lemma_entry_in_map(s, j);
                }
                if active_nodes(m).contains(k) {
                    let j = index_of(s, k);
                    assert(has_key(s, k));
                    lemma_entry_in_map(s, j);
                    assert(s[j].0@ == k);
                }
            }
            assert(seen =~= active_nodes(m));
        }
        count
    }

    /// Whether the active connections have reached the limit.
    pub fn has_reached_max_active_connections(&self) -> (r: bool)
        requires
            self.wf(),
        ensures
            r == (active_count(self@) >= self.max()),
    {
        self.get_active_connection_count() >= self.max_connections
    }

    /// Record the connection to `node_id`, with its state, unless the active connections
    /// have reached the limit. A connection it replaces is handed back.
    pub fn add_connection(&mut self, node_id: NodeId, conn: C, state: PeerConnectionState) -> (r:
        Result<Option<C>, ConnectionManagerError>)
        requires
            old(self).wf(),
        ensures
            final(self).wf(),
            final(self).max() == old(self).max(),
            (active_count(old(self)@) >= old(self).max()) <==> r is Err,
            r matches Err(e) ==> e is MaxConnectionsReached && final(self)@ == old(self)@,
            r matches Ok(replaced) ==> {
                &&& final(self)@ == old(self)@.insert(node_id@, (state, conn))
                &&& replaced == (if old(self)@.dom().contains(node_id@) {
                    Some(old(self)@[node_id@].1)
                } else {
                    None
                })
            },
    {
        if self.has_reached_max_active_connections() {
            return Err(ConnectionManagerError::MaxConnectionsReached);
        }
        match self.repository.insert(node_id, (state, conn)) {
            Some(old_entry) => Ok(Some(old_entry.1)),
            None => Ok(None),
        }
    }

    /// Take the connection to `node_id` out of the table.
    pub fn drop_connection(&mut self, node_id: &NodeId) -> (r: Result<C, ConnectionManagerError>)
        requires
            old(self).wf(),
        ensures
            final(self).wf(),
            final(self).max() == old(self).max(),
            final(self)@ == old(self)@.remove(node_id@),
            !old(self)@.dom().contains(node_id@) <==> r is Err,
            r matches Err(e) ==> e is PeerConnectionNotFound,
            r matches Ok(c) ==> c == old(self)@[node_id@].1,
    {
        match self.repository.remove(node_id) {
            Some(entry) => Ok(entry.1),
            None => Err(ConnectionManagerError::PeerConnectionNotFound),
        }
    }

    /// Record the state in which the connection to `node_id` was last seen; false when
    /// there is no such connection.
    pub fn set_connection_state(&mut self, node_id: &NodeId, state: PeerConnectionState) -> (r: bool)
        requires
            old(self).wf(),
        ensures
            final(self).wf(),
            final(self).max() == old(self).max(),
            r == old(self)@.dom().contains(node_id@),
            r ==> final(self)@ == old(self)@.insert(node_id@, (state, old(self)@[node_id@].1)),
            !r ==> final(self)@ == old(self)@,
    {
        match self.repository.find(node_id) {
            None => false,
            Some(_) => {
                let ghost m = self@;
                match self.repository.remove(node_id) {
                    Some(entry) => {
                        let (_, conn) = entry;
                        let id = node_id.clone();
                        self.repository.insert(id, (state, conn));
                        assert(self@ =~= m.insert(node_id@, (state, m[node_id@].1)));
                        true
                    },
                    None => false,
                }
            },
        }
    }

    /// Empty the table, handing back every connection handle, one per node.
    pub fn drain(self) -> (r: Vec<C>)
        requires
            self.wf(),
        ensures
            r@.len() == self@.dom().len(),
            exists|nodes: Seq<Seq<u8>>|
                {
                    &&& nodes.len() == r@.len()
                    &&& nodes.no_duplicates()
                    &&& nodes.to_set() == self@.dom()
                    &&& forall|i: int|
                        0 <= i < r@.len() ==> r@[i] == self@[#[trigger] nodes[i]].1
                },
    {
        let ghost m = self@;
        let ghost nodes = crate::node_map::entry_keys(self.repository.entries_view());
        let entries = self.repository.into_values();
        let mut handles: Vec<C> = Vec::new();
        let mut rev: Vec<C> = Vec::new();
        let ghost s = entries@;
        let mut entries = entries;
        let n = entries.len();
        while entries.len() > 0
            invariant
                s.len() == n,
                entries@ == s.take(entries@.len() as int),
                rev@.len() + entries@.len() == n,
                forall|j: int| 0 <= j < rev@.len() ==> #[trigger] rev@[j] == s[n - 1 - j].1,
            decreases entries@.len(),
        {
            let (_, c) = entries.pop().unwrap();
            rev.push(c);
            assert(entries@ =~= s.take(entries@.len() as int));
        }
        let mut idx: usize = 0;
        while idx < n
            invariant
                s.len() == n,
                idx <= n,
                rev@.len() == n - idx,
                forall|j: int| 0 <= j < n - idx ==> #[trigger] rev@[j] == s[n - 1 - j].1,
                handles@.len() == idx,
                forall|j: int| 0 <= j < idx ==> #[trigger] handles@[j] == s[j].1,
            decreases n - idx,
        {
            let ghost last = (n - idx - 1) as int;
            assert(rev@[last] == s[idx as int].1);
            let c = rev.pop().unwrap();
            handles.push(c);
            idx = idx + 1;
        }
        assert(forall|i: int| 0 <= i < handles@.len() ==> handles@[i] == m[#[trigger] nodes[i]].1);
        handles
    }
}

impl<C> View for LivePeerConnections<C> {
    type V = ConnectionMap<C>;

    closed spec fn view(&self) -> ConnectionMap<C> {
        self.repository@
    }
}

} // verus!
