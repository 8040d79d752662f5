use vstd::prelude::*;

use crate::live_connections::{ConnectionMap, LivePeerConnections, active_count};
use crate::node_id::NodeId;
use crate::node_map::NodeMap;
use crate::types::{ConnectionManagerError, PeerConnectionConfig, PeerConnectionState};

verus! {

/// How an attempt to reach a peer begins.
#[derive(Debug, PartialEq, Eq)]
pub enum EstablishStart<C> {
    /// The table holds an active connection to the peer: that connection is the answer.
    UseExisting,
    /// A new connection must be made: first reset the peer's connection attempts in the
    /// peer store, then report the outcome with `EstablishEvent::AttemptsReset`. The stale
    /// connection taken out of the table, if there was one, is handed back to be shut down.
    Initiate(Option<C>),
}

/// The outcome of a piece of outside work done while establishing a new connection.
#[derive(Debug, PartialEq, Eq)]
pub enum EstablishEvent<C> {
    /// The peer store reset the peer's connection attempts, or failed with a message.
    AttemptsReset(Result<(), String>),
    /// The connection protocol with the peer was negotiated, or failed.
    Negotiated(Result<(), ConnectionManagerError>),
    /// The peer accepted the new connection, handed over with its state, or the
    /// connection failed with a message.
    Accepted(Result<(C, PeerConnectionState), String>),
}

/// What to do next while establishing a new connection.
#[derive(Debug, PartialEq, Eq)]
pub enum EstablishAction<C> {
    /// Negotiate the connection protocol with the peer.
    Negotiate,
    /// Wait, at most this many milliseconds, for the peer to accept the connection.
    AwaitAcceptance(u64),
    /// The attempt is over. On success the new connection is in the table, and the
    /// connection it replaced, if any, is handed back.
    Finished(Result<Option<C>, ConnectionManagerError>),
}

/// How the table and the answer stand after an attempt to reach node `k` begins.
pub open spec fn attempt_result<C>(m: ConnectionMap<C>, k: Seq<u8>) -> (EstablishStart<C>, ConnectionMap<C>) {
    if m.dom().contains(k) {
        if m[k].0.active() {
            (EstablishStart::UseExisting, m)
        } else {
            (EstablishStart::Initiate(Some(m[k].1)), m.remove(k))
        }
    } else {
        (EstablishStart::Initiate(None), m)
    }
}

/// How the table and the answer stand after adding connection `c` to node `k`.
pub open spec fn add_result<C>(
    m: ConnectionMap<C>,
    max: nat,
    k: Seq<u8>,
    c: C,
    st: PeerConnectionState,
) -> (Result<Option<C>, ConnectionManagerError>, ConnectionMap<C>) {
    if active_count(m) >= max {
        (Err(ConnectionManagerError::MaxConnectionsReached), m)
    } else {
        (
            Ok(
                if m.dom().contains(k) {
                    Some(m[k].1)
                } else {
                    None
                },
            ),
            m.insert(k, (st, c)),
        )
    }
}

/// How the table stands, and what comes next, after an event of the attempt to reach node `k`.
pub open spec fn event_result<C>(
    m: ConnectionMap<C>,
    max: nat,
    timeout_ms: u64,
    k: Seq<u8>,
    event: EstablishEvent<C>,
) -> (EstablishAction<C>, ConnectionMap<C>) {
    match event {
        EstablishEvent::AttemptsReset(Ok(())) => (EstablishAction::Negotiate, m),
        EstablishEvent::AttemptsReset(Err(e)) => (
            EstablishAction::Finished(Err(ConnectionManagerError::PeerManagerError(e))),
            m,
        ),
        EstablishEvent::Negotiated(Ok(())) => (EstablishAction::AwaitAcceptance(timeout_ms), m),
        EstablishEvent::Negotiated(Err(e)) => (EstablishAction::Finished(Err(e)), m),
        EstablishEvent::Accepted(Err(e)) => (
            EstablishAction::Finished(Err(ConnectionManagerError::ConnectionError(e))),
            m,
        ),
        EstablishEvent::Accepted(Ok((c, st))) => {
            let (r, m2) = add_result(m, max, k, c, st);
            (EstablishAction::Finished(r), m2)
        },
    }
}

/// The establishment locks after the lock for node `k` is asked for, with `fresh` as the
/// lock to use when the node has none yet.
pub open spec fn lock_acquired<L>(locks: Map<Seq<u8>, L>, k: Seq<u8>, fresh: L) -> Map<Seq<u8>, L> {
    if locks.dom().contains(k) {
        locks
    } else {
        locks.insert(k, fresh)
    }
}

/// The answer to a shutdown of the connection `conn`, once its thread was joined or not.
pub fn finish_connection_shutdown<C>(conn: C, joined: Result<(), String>) -> (r: Result<
    Option<C>,
    ConnectionManagerError,
>)
    ensures
        joined is Ok ==> r == Ok::<Option<C>, ConnectionManagerError>(Some(conn)),
        joined matches Err(e) ==> r == Err::<Option<C>, ConnectionManagerError>(
            ConnectionManagerError::PeerConnectionThreadError(e),
        ),
{
    match joined {
        Ok(()) => Ok(Some(conn)),
        Err(e) => Err(ConnectionManagerError::PeerConnectionThreadError(e)),
    }
}

/// Manages the connections to peers: which are live, when a new one is made, and the
/// per-peer locks that keep two establishments for one peer apart. `C` is the handle of
/// a connection, `L` a lock.
pub struct ConnectionManager<C, L> {
    config: PeerConnectionConfig,
    connections: LivePeerConnections<C>,
    establish_locks: NodeMap<L>,
}

impl<C, L> ConnectionManager<C, L> {
    /// Well-formedness: one connection and one lock per node at most, and the limit on
    /// active connections is the configured one.
    pub closed spec fn wf(&self) -> bool {
        &&& self.connections.wf()
        &&& self.establish_locks.wf()
        &&& self.connections.max() == self.config.max_connections
    }

    /// The live connections, by node.
    pub closed spec fn connections_view(&self) -> ConnectionMap<C> {
        self.connections@
    }

    /// The establishment locks, by node.
    pub closed spec fn locks_view(&self) -> Map<Seq<u8>, L> {
        self.establish_locks@
    }

    /// The limit on active connections.
    pub open spec fn max(&self) -> nat {
        self.config_view().max_connections as nat
    }

    /// How long, in milliseconds, to wait for a peer to accept a new connection.
    pub open spec fn establish_timeout_ms(&self) -> u64 {
        self.config_view().peer_connection_establish_timeout_ms
    }

    /// The settings.
    pub closed spec fn config_view(&self) -> PeerConnectionConfig {
        self.config
    }

    /// A manager with no connections and no locks, with the given settings.
    pub fn new(config: PeerConnectionConfig) -> (r: ConnectionManager<C, L>)
        ensures
            r.wf(),
            r.connections_view() == ConnectionMap::<C>::empty(),
            r.locks_view() == Map::<Seq<u8>, L>::empty(),
            active_count(r.connections_view()) == 0,
            r.max() == config.max_connections,
            r.establish_timeout_ms() == config.peer_connection_establish_timeout_ms,
            r.config_view() == config,
    {
        let connections = LivePeerConnections::with_max_connections(config.max_connections);
        ConnectionManager { config, connections, establish_locks: NodeMap::new() }
    }

    /// The settings.
    pub fn config(&self) -> (r: &PeerConnectionConfig)
        ensures
            *r == self.config_view(),
    {
        &self.config
    }

    /// Begin an attempt to reach a peer: an active connection to it is reused; a stale
    /// one is taken out of the table; otherwise a new connection is to be made.
    fn attempt_peer_connection(&mut self, node_id: &NodeId) -> (r: EstablishStart<C>)
        requires
            old(self).wf(),
        ensures
            final(self).wf(),
            final(self).max() == old(self).max(),
            final(self).locks_view() == old(self).locks_view(),
            final(self).config_view() == old(self).config_view(),
            (r, final(self).connections_view()) == attempt_result(
                old(self).connections_view(),
                node_id@,
            ),
            !old(self).connections_view().dom().contains(node_id@) ==> r == EstablishStart::<C>::Initiate(None)
                && final(self).connections_view() == old(self).connections_view(),
            old(self).connections_view().dom().contains(node_id@) && old(self).connections_view()[node_id@].0.active() ==> r
                == EstablishStart::<C>::UseExisting && final(self).connections_view() == old(self).connections_view(),
            old(self).connections_view().dom().contains(node_id@) && !old(self).connections_view()[node_id@].0.active() ==> r
                == EstablishStart::<C>::Initiate(Some(old(self).connections_view()[node_id@].1)) && final(self).connections_view() == old(self).connections_view().remove(
                node_id@,
            ),
    {
        let active = match self.connections.get(node_id) {
            Some(entry) => Some(entry.0.is_active()),
            None => None,
        };
        match active {
            None => EstablishStart::Initiate(None),
            Some(true) => EstablishStart::UseExisting,
            Some(false) => {
                match self.connections.drop_connection(node_id) {
                    Ok(stale) => EstablishStart::Initiate(Some(stale)),
                    Err(_) => EstablishStart::Initiate(None),
                }
            },
        }
    }

    /// Begin an attempt to establish a connection to the peer `node_id`. If an active
    /// connection to it exists, that connection is the answer.
    pub fn establish_connection_to_peer(&mut self, node_id: &NodeId) -> (r: EstablishStart<C>)
        requires
            old(self).wf(),
        ensures
            final(self).wf(),
            final(self).max() == old(self).max(),
            final(self).locks_view() == old(self).locks_view(),
            final(self).config_view() == old(self).config_view(),
            (r, final(self).connections_view()) == attempt_result(
                old(self).connections_view(),
                node_id@,
            ),
            !old(self).connections_view().dom().contains(node_id@) ==> r == EstablishStart::<C>::Initiate(None)
                && final(self).connections_view() == old(self).connections_view(),
            old(self).connections_view().dom().contains(node_id@) && old(self).connections_view()[node_id@].0.active() ==> r
                == EstablishStart::<C>::UseExisting && final(self).connections_view() == old(self).connections_view(),
            old(self).connections_view().dom().contains(node_id@) && !old(self).connections_view()[node_id@].0.active() ==> r
                == EstablishStart::<C>::Initiate(Some(old(self).connections_view()[node_id@].1)) && final(self).connections_view() == old(self).connections_view().remove(
                node_id@,
            ),
    {
        self.attempt_peer_connection(node_id)
    }

    /// Begin an attempt to establish a connection to the node `node_id`, given the outcome
    /// of looking the node up in the peer store. If an active connection to it exists,
    /// that connection is the answer.
    pub fn establish_connection_to_node_id(
        &mut self,
        node_id: &NodeId,
        lookup: Result<(), String>,
    ) -> (r: Result<EstablishStart<C>, ConnectionManagerError>)
        requires
            old(self).wf(),
        ensures
            final(self).wf(),
            final(self).max() == old(self).max(),
            final(self).locks_view() == old(self).locks_view(),
            final(self).config_view() == old(self).config_view(),
            lookup matches Err(e) ==> {
                &&& r == Err::<EstablishStart<C>, ConnectionManagerError>(
                    ConnectionManagerError::PeerManagerError(e),
                )
                &&& final(self).connections_view() == old(self).connections_view()
            },
            lookup is Ok ==> r is Ok && (r->Ok_0, final(self).connections_view()) == attempt_result(
                old(self).connections_view(),
                node_id@,
            ),
            lookup is Ok && !old(self).connections_view().dom().contains(node_id@) ==> r == Ok::<
                EstablishStart<C>,
                ConnectionManagerError,
            >(EstablishStart::<C>::Initiate(None)) && final(self).connections_view() == old(self).connections_view(),
            lookup is Ok && old(self).connections_view().dom().contains(node_id@) && old(self).connections_view()[node_id@].0.active() ==> r == Ok::<
                EstablishStart<C>,
                ConnectionManagerError,
            >(EstablishStart::<C>::UseExisting) && final(self).connections_view() == old(self).connections_view(),
            lookup is Ok && old(self).connections_view().dom().contains(node_id@) && !old(self).connections_view()[node_id@].0.active() ==> r == Ok::<
                EstablishStart<C>,
                ConnectionManagerError,
            >(EstablishStart::<C>::Initiate(Some(old(self).connections_view()[node_id@].1))) && final(self).connections_view() == old(self).connections_view().remove(node_id@),
    {
        match lookup {
            Ok(()) => Ok(self.attempt_peer_connection(node_id)),
            Err(e) => Err(ConnectionManagerError::PeerManagerError(e)),
        }
    }

    /// Take the next step of establishing a new connection to `node_id`, given the outcome
    /// of the last piece of outside work.
    pub fn on_establish_event(&mut self, node_id: NodeId, event: EstablishEvent<C>) -> (r:
        EstablishAction<C>)
        requires
            old(self).wf(),
        ensures
            final(self).wf(),
            final(self).max() == old(self).max(),
            final(self).locks_view() == old(self).locks_view(),
            final(self).config_view() == old(self).config_view(),
            (r, final(self).connections_view()) == event_result(
                old(self).connections_view(),
                old(self).max(),
                old(self).establish_timeout_ms(),
                node_id@,
                event,
            ),
            event == EstablishEvent::<C>::Negotiated(Ok(())) ==> r == EstablishAction::<C>::AwaitAcceptance(
                old(self).config_view().peer_connection_establish_timeout_ms,
            ) && final(self).connections_view() == old(self).connections_view(),
            event matches EstablishEvent::Accepted(Ok((c, st))) ==> {
                &&& active_count(old(self).connections_view()) < old(self).max() ==> r == EstablishAction::<C>::Finished(
                    Ok(
                        if old(self).connections_view().dom().contains(node_id@) {
                            Some(old(self).connections_view()[node_id@].1)
                        } else {
                            None
                        },
                    ),
                ) && final(self).connections_view() == old(self).connections_view().insert(node_id@, (st, c))
                &&& active_count(old(self).connections_view()) >= old(self).max() ==> r == EstablishAction::<C>::Finished(
                    Err(ConnectionManagerError::MaxConnectionsReached),
                ) && final(self).connections_view() == old(self).connections_view()
            },
    {
        match event {
            EstablishEvent::AttemptsReset(Ok(())) => EstablishAction::Negotiate,
            EstablishEvent::AttemptsReset(Err(e)) => EstablishAction::Finished(
                Err(ConnectionManagerError::PeerManagerError(e)),
            ),
            EstablishEvent::Negotiated(Ok(())) => EstablishAction::AwaitAcceptance(
                self.config.peer_connection_establish_timeout_ms,
            ),
            EstablishEvent::Negotiated(Err(e)) => EstablishAction::Finished(Err(e)),
            EstablishEvent::Accepted(Err(e)) => EstablishAction::Finished(
                Err(ConnectionManagerError::ConnectionError(e)),
            ),
            EstablishEvent::Accepted(Ok((conn, state))) => {
                EstablishAction::Finished(self.connections.add_connection(node_id, conn, state))
            },
        }
    }

    /// Whether a connection that a peer asked for may be made: refused with
    /// `MaxConnectionsReached` when the active connections have reached the limit.
    pub fn establish_requested_outbound_connection(&self) -> (r: Result<(), ConnectionManagerError>)
        requires
            self.wf(),
        ensures
            r is Err <==> active_count(self.connections_view()) >= self.max(),
            r matches Err(e) ==> e is MaxConnectionsReached,
    {
        if self.connections.has_reached_max_active_connections() {
            Err(ConnectionManagerError::MaxConnectionsReached)
        } else {
            Ok(())
        }
    }

    /// Record the outbound connection that a peer asked for, given the outcome of making it.
    pub fn register_requested_outbound_connection(
        &mut self,
        node_id: NodeId,
        established: Result<(C, PeerConnectionState), ConnectionManagerError>,
    ) -> (r: Result<Option<C>, ConnectionManagerError>)
        requires
            old(self).wf(),
        ensures
            final(self).wf(),
            final(self).max() == old(self).max(),
            final(self).locks_view() == old(self).locks_view(),
            final(self).config_view() == old(self).config_view(),
            established matches Err(e) ==> r == Err::<Option<C>, ConnectionManagerError>(e)
                && final(self).connections_view() == old(self).connections_view(),
            established matches Ok((c, st)) ==> (r, final(self).connections_view()) == add_result(
                old(self).connections_view(),
                old(self).max(),
                node_id@,
                c,
                st,
            ),
            established matches Ok((c, st)) ==> {
                &&& active_count(old(self).connections_view()) < old(self).max() ==> r == Ok::<Option<C>, ConnectionManagerError>(
                    if old(self).connections_view().dom().contains(node_id@) {
                        Some(old(self).connections_view()[node_id@].1)
                    } else {
                        None
                    },
                ) && final(self).connections_view() == old(self).connections_view().insert(node_id@, (st, c))
                &&& active_count(old(self).connections_view()) >= old(self).max() ==> r == Err::<Option<C>, ConnectionManagerError>(
                    ConnectionManagerError::MaxConnectionsReached,
                ) && final(self).connections_view() == old(self).connections_view()
            },
    {
        match established {
            Ok((conn, state)) => self.connections.add_connection(node_id, conn, state),
            Err(e) => Err(e),
        }
    }

    /// Record a connection to `node_id` with its state, unless the active connections have
    /// reached the limit. The connection it replaces, if any, is handed back.
    pub fn add_connection(&mut self, node_id: NodeId, conn: C, state: PeerConnectionState) -> (r:
        Result<Option<C>, ConnectionManagerError>)
        requires
            old(self).wf(),
        ensures
            final(self).wf(),
            final(self).max() == old(self).max(),
            final(self).locks_view() == old(self).locks_view(),
            final(self).config_view() == old(self).config_view(),
            (r, final(self).connections_view()) == add_result(
                old(self).connections_view(),
                old(self).max(),
                node_id@,
                conn,
                state,
            ),
            active_count(old(self).connections_view()) < old(self).max() ==> r == Ok::<Option<C>, ConnectionManagerError>(
                if old(self).connections_view().dom().contains(node_id@) {
                    Some(old(self).connections_view()[node_id@].1)
                } else {
                    None
                },
            ) && final(self).connections_view() == old(self).connections_view().insert(node_id@, (state, conn)),
            active_count(old(self).connections_view()) >= old(self).max() ==> r == Err::<Option<C>, ConnectionManagerError>(
                ConnectionManagerError::MaxConnectionsReached,
            ) && final(self).connections_view() == old(self).connections_view(),
    {
        self.connections.add_connection(node_id, conn, state)
    }

    /// Record the state in which the connection to `node_id` was last seen; false when
    /// there is no such connection.
    pub fn set_connection_state(&mut self, node_id: &NodeId, state: PeerConnectionState) -> (r: bool)
        requires
            old(self).wf(),
        ensures
            final(self).wf(),
            final(self).max() == old(self).max(),
            final(self).locks_view() == old(self).locks_view(),
            final(self).config_view() == old(self).config_view(),
            r == old(self).connections_view().dom().contains(node_id@),
            r ==> final(self).connections_view() == old(self).connections_view().insert(
                node_id@,
                (state, old(self).connections_view()[node_id@].1),
            ),
            !r ==> final(self).connections_view() == old(self).connections_view(),
    {
        self.connections.set_connection_state(node_id, state)
    }

    /// The connection to `node_id`, if there is one.
    pub fn get_connection(&self, node_id: &NodeId) -> (r: Option<&C>)
        requires
            self.wf(),
        ensures
            r == (if self.connections_view().dom().contains(node_id@) {
                Some(&self.connections_view()[node_id@].1)
            } else {
                None
            }),
    {
        self.connections.get_connection(node_id)
    }

    /// Take the connection to `node_id` out of the table, if there is one, to be shut down.
    pub fn shutdown_connection_for_peer(&mut self, node_id: &NodeId) -> (r: Option<C>)
        requires
            old(self).wf(),
        ensures
            final(self).wf(),
            final(self).max() == old(self).max(),
            final(self).locks_view() == old(self).locks_view(),
            final(self).config_view() == old(self).config_view(),
            final(self).connections_view() == old(self).connections_view().remove(node_id@),
            r == (if old(self).connections_view().dom().contains(node_id@) {
                Some(old(self).connections_view()[node_id@].1)
            } else {
                None
            }),
    {
        match self.connections.drop_connection(node_id) {
            Ok(conn) => Some(conn),
            Err(_) => None,
        }
    }

    /// The number of active connections.
    pub fn get_active_connection_count(&self) -> (r: usize)
        requires
            self.wf(),
        ensures
            r == active_count(self.connections_view()),
    {
        self.connections.get_active_connection_count()
    }

    /// The nodes that have a connection, each once.
    pub fn connected_node_ids(&self) -> (r: Vec<NodeId>)
        requires
            self.wf(),
        ensures
            r@.len() == self.connections_view().dom().len(),
            forall|i: int, j: int|
                #![trigger r@[i], r@[j]]
                0 <= i < r@.len() && 0 <= j < r@.len() && i != j ==> r@[i]@ != r@[j]@,
            forall|i: int| 0 <= i < r@.len() ==> self.connections_view().dom().contains(#[trigger] r@[i]@),
            forall|k: Seq<u8>|
                #[trigger] self.connections_view().dom().contains(k) ==> exists|i: int|
                    0 <= i < r@.len() && #[trigger] r@[i]@ == k,
    {
        self.connections.node_ids()
    }

    /// The number of connections, active or not.
    pub fn connection_count(&self) -> (r: usize)
        requires
            self.wf(),
        ensures
            r == self.connections_view().dom().len(),
    {
        self.connections.len()
    }

    /// Ask for the establishment lock of `node_id`: the node's lock stays if it has one,
    /// otherwise `fresh` becomes its lock.
    pub fn acquire_establish_lock(&mut self, node_id: NodeId, fresh: L)
        requires
            old(self).wf(),
        ensures
            final(self).wf(),
            final(self).max() == old(self).max(),
            final(self).connections_view() == old(self).connections_view(),
            final(self).config_view() == old(self).config_view(),
            final(self).locks_view() == lock_acquired(old(self).locks_view(), node_id@, fresh),
            final(self).locks_view().dom() == old(self).locks_view().dom().insert(node_id@),
            final(self).locks_view()[node_id@] == (if old(self).locks_view().dom().contains(node_id@) {
                old(self).locks_view()[node_id@]
            } else {
                fresh
            }),
    {
        if !self.establish_locks.contains_key(&node_id) {
            self.establish_locks.insert(node_id, fresh);
        }
    }

    /// The establishment lock of `node_id`, if it has one.
    pub fn establish_lock(&self, node_id: &NodeId) -> (r: Option<&L>)
        requires
            self.wf(),
        ensures
            r == (if self.locks_view().dom().contains(node_id@) {
                Some(&self.locks_view()[node_id@])
            } else {
                None
            }),
    {
        self.establish_locks.get(node_id)
    }

    /// Forget the establishment lock of `node_id`, once its establishment is over.
    pub fn release_establish_lock(&mut self, node_id: &NodeId)
        requires
            old(self).wf(),
        ensures
            final(self).wf(),
            final(self).max() == old(self).max(),
            final(self).connections_view() == old(self).connections_view(),
            final(self).config_view() == old(self).config_view(),
            final(self).locks_view() == old(self).locks_view().remove(node_id@),
    {
        let _ = self.establish_locks.remove(node_id);
    }

    /// Shut the manager down, handing back every connection, one per node, to be shut down.
    pub fn shutdown(self) -> (r: Vec<C>)
        requires
            self.wf(),
        ensures
            r@.len() == self.connections_view().dom().len(),
            exists|nodes: Seq<Seq<u8>>|
                {
                    &&& nodes.len() == r@.len()
                    &&& nodes.no_duplicates()
                    &&& nodes.to_set() == self.connections_view().dom()
                    &&& forall|i: int|
                        0 <= i < r@.len() ==> r@[i] == self.connections_view()[#[trigger] nodes[i]].1
                },
    {
        self.connections.drain()
    }
}

} // verus!
