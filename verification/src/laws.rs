//! Properties of the connection manager that relate several operations.
use vstd::prelude::*;

use crate::live_connections::{ConnectionMap, active_count, active_nodes};
use crate::manager::{
    EstablishAction,
    EstablishEvent,
    EstablishStart,
    add_result,
    attempt_result,
    event_result,
    lock_acquired,
};
use crate::types::{ConnectionManagerError, PeerConnectionState};

verus! {

broadcast use vstd::set::group_set_axioms;

/// When an active connection to a peer exists, an attempt to reach that peer returns it
/// and leaves the table as it was.
pub proof fn law_existing_active_connection_is_reused<C>(m: ConnectionMap<C>, k: Seq<u8>)
    requires
        m.dom().contains(k),
        m[k].0.active(),
    ensures
        attempt_result(m, k) == (EstablishStart::<C>::UseExisting, m),
{
}

/// When the connection to a peer is not active, an attempt to reach that peer takes it out
/// of the table and hands it back, so that a new connection is made in its place.
pub proof fn law_stale_connection_is_dropped<C>(m: ConnectionMap<C>, k: Seq<u8>)
    requires
        m.dom().contains(k),
        !m[k].0.active(),
    ensures
        attempt_result(m, k) == (EstablishStart::<C>::Initiate(Some(m[k].1)), m.remove(k)),
        !attempt_result(m, k).1.dom().contains(k),
{
}

/// An attempt that goes on to make a new connection, once the peer accepts it within the
/// limit, leaves exactly that connection in the table for the peer and replaces nothing.
pub proof fn law_accepted_connection_is_recorded<C>(
    m: ConnectionMap<C>,
    max: nat,
    timeout_ms: u64,
    k: Seq<u8>,
    c: C,
    st: PeerConnectionState,
)
    requires
        attempt_result(m, k).0 is Initiate,
        active_count(attempt_result(m, k).1) < max,
    ensures
        ({
            let m1 = attempt_result(m, k).1;
            event_result(m1, max, timeout_ms, k, EstablishEvent::Accepted(Ok((c, st)))) == (
                EstablishAction::<C>::Finished(Ok(None)),
                m1.insert(k, (st, c)),
            )
        }),
        event_result(
            attempt_result(m, k).1,
            max,
            timeout_ms,
            k,
            EstablishEvent::Accepted(Ok((c, st))),
        ).1[k] == (st, c),
{
}

/// Every step of an establishment that fails ends the attempt with that failure and leaves
/// the table unchanged; every step that succeeds before the peer accepts leaves it unchanged too.
pub proof fn law_establishment_changes_table_only_on_acceptance<C>(
    m: ConnectionMap<C>,
    max: nat,
    timeout_ms: u64,
    k: Seq<u8>,
    event: EstablishEvent<C>,
)
    requires
        !(event matches EstablishEvent::Accepted(Ok(_))),
    ensures
        event_result(m, max, timeout_ms, k, event).1 == m,
        event_result(m, max, timeout_ms, k, event).0 matches EstablishAction::Finished(r) ==> r is Err,
{
}

/// Adding a connection to a node that has none, then shutting that node's connection
/// down, hands back the added connection and restores the table.
pub proof fn law_shutdown_undoes_add<C>(
    m: ConnectionMap<C>,
    max: nat,
    k: Seq<u8>,
    c: C,
    st: PeerConnectionState,
)
    requires
        !m.dom().contains(k),
        active_count(m) < max,
    ensures
        add_result(m, max, k, c, st).0 == Ok::<Option<C>, ConnectionManagerError>(None),
        add_result(m, max, k, c, st).1.dom().contains(k),
        add_result(m, max, k, c, st).1[k].1 == c,
        add_result(m, max, k, c, st).1.remove(k) == m,
{
    assert(m.insert(k, (st, c)).remove(k) =~= m);
}

/// After a peer's connection is shut down there is none for it, so shutting it down again
/// finds nothing and changes nothing.
pub proof fn law_shutdown_is_idempotent<C>(m: ConnectionMap<C>, k: Seq<u8>)
    ensures
        !m.remove(k).dom().contains(k),
        m.remove(k).remove(k) == m.remove(k),
{
    assert(m.remove(k).remove(k) =~= m.remove(k));
}

/// The active connections are among the connections.
pub proof fn law_active_connections_are_connections<C>(m: ConnectionMap<C>)
    requires
        m.dom().finite(),
    ensures
        active_nodes(m).subset_of(m.dom()),
        active_count(m) <= m.dom().len(),
{
    m.dom().lemma_len_filter(|k: Seq<u8>| m[k].0.active());
}

/// Adding a connection never takes the number of active connections beyond the limit:
/// an addition that succeeds leaves at most `max` active connections.
pub proof fn law_add_respects_limit<C>(
    m: ConnectionMap<C>,
    max: nat,
    k: Seq<u8>,
    c: C,
    st: PeerConnectionState,
)
    requires
        m.dom().finite(),
        add_result(m, max, k, c, st).0 is Ok,
    ensures
        active_count(add_result(m, max, k, c, st).1) <= max,
        active_count(add_result(m, max, k, c, st).1) <= active_count(m) + 1,
{
    let m2 = m.insert(k, (st, c));
    let a = active_nodes(m);
    let a2 = active_nodes(m2);
    m.dom().lemma_len_filter(|x: Seq<u8>| m[x].0.active());
    assert(a2.subset_of(a.insert(k)));
    vstd::set_lib::lemma_len_subset(a2, a.insert(k));
}

/// An attempt to reach a node that has no connection always starts a new connection and
/// leaves the table as it was, whatever connections other nodes have.
pub proof fn law_node_without_connection_gets_a_new_one<C>(m: ConnectionMap<C>, k: Seq<u8>)
    requires
        !m.dom().contains(k),
    ensures
        attempt_result(m, k) == (EstablishStart::<C>::Initiate(None), m),
{
}

/// An attempt answers "use the existing connection" only when the node itself has an
/// active connection; then that connection is still in the table.
pub proof fn law_reuse_only_an_own_active_connection<C>(m: ConnectionMap<C>, k: Seq<u8>)
    ensures
        attempt_result(m, k).0 is UseExisting <==> (m.dom().contains(k) && m[k].0.active()),
        attempt_result(m, k).0 is UseExisting ==> attempt_result(m, k).1.dom().contains(k),
        attempt_result(m, k).0 is Initiate ==> !attempt_result(m, k).1.dom().contains(k),
{
}

/// After a successful negotiation the wait for the peer's acceptance lasts exactly the
/// configured establish timeout, and the table does not change.
pub proof fn law_acceptance_wait_is_the_configured_timeout<C>(
    m: ConnectionMap<C>,
    max: nat,
    timeout_ms: u64,
    k: Seq<u8>,
)
    ensures
        event_result(m, max, timeout_ms, k, EstablishEvent::<C>::Negotiated(Ok(())))
            == (EstablishAction::<C>::AwaitAcceptance(timeout_ms), m),
{
}

/// Below the limit an addition always succeeds; a successful addition records the new
/// connection and its state for the node, whether or not the node had a connection (stale
/// or not), and hands back exactly the connection it replaced. At the limit it is refused
/// and nothing changes.
pub proof fn law_add_records_the_new_connection<C>(
    m: ConnectionMap<C>,
    max: nat,
    k: Seq<u8>,
    c: C,
    st: PeerConnectionState,
)
    ensures
        add_result(m, max, k, c, st).0 is Ok <==> active_count(m) < max,
        add_result(m, max, k, c, st).0 is Ok ==> {
            &&& add_result(m, max, k, c, st).1 == m.insert(k, (st, c))
            &&& add_result(m, max, k, c, st).1[k] == (st, c)
            &&& add_result(m, max, k, c, st).0 == Ok::<Option<C>, ConnectionManagerError>(
                if m.dom().contains(k) {
                    Some(m[k].1)
                } else {
                    None
                },
            )
        },
        add_result(m, max, k, c, st).0 is Err ==> {
            &&& add_result(m, max, k, c, st).1 == m
            &&& add_result(m, max, k, c, st).0 == Err::<Option<C>, ConnectionManagerError>(
                ConnectionManagerError::MaxConnectionsReached,
            )
        },
{
}

/// Accepting a new connection records it exactly as an addition does, so the accepted
/// connection replaces the node's old one.
pub proof fn law_acceptance_is_an_addition<C>(
    m: ConnectionMap<C>,
    max: nat,
    timeout_ms: u64,
    k: Seq<u8>,
    c: C,
    st: PeerConnectionState,
)
    ensures
        active_count(m) < max ==> event_result(
            m,
            max,
            timeout_ms,
            k,
            EstablishEvent::Accepted(Ok((c, st))),
        ) == (
            EstablishAction::<C>::Finished(
                Ok(
                    if m.dom().contains(k) {
                        Some(m[k].1)
                    } else {
                        None
                    },
                ),
            ),
            m.insert(k, (st, c)),
        ),
        active_count(m) >= max ==> event_result(
            m,
            max,
            timeout_ms,
            k,
            EstablishEvent::Accepted(Ok((c, st))),
        ) == (
            EstablishAction::<C>::Finished(Err(ConnectionManagerError::MaxConnectionsReached)),
            m,
        ),
{
}

/// Each step of an establishment goes on to the next piece of outside work or ends with the
/// failure it met: a peer store failure after resetting the attempts, the negotiation's own
/// error, or a connection error when the peer does not accept.
pub proof fn law_establishment_steps_and_errors<C>(
    m: ConnectionMap<C>,
    max: nat,
    timeout_ms: u64,
    k: Seq<u8>,
    e: String,
    err: ConnectionManagerError,
)
    ensures
        event_result(m, max, timeout_ms, k, EstablishEvent::<C>::AttemptsReset(Ok(())))
            == (EstablishAction::<C>::Negotiate, m),
        event_result(m, max, timeout_ms, k, EstablishEvent::<C>::AttemptsReset(Err(e))) == (
            EstablishAction::<C>::Finished(Err(ConnectionManagerError::PeerManagerError(e))),
            m,
        ),
        event_result(m, max, timeout_ms, k, EstablishEvent::<C>::Negotiated(Err(err))) == (
            EstablishAction::<C>::Finished(Err(err)),
            m,
        ),
        event_result(m, max, timeout_ms, k, EstablishEvent::<C>::Accepted(Err(e))) == (
            EstablishAction::<C>::Finished(Err(ConnectionManagerError::ConnectionError(e))),
            m,
        ),
{
}

/// Two establishments for the same node use the same lock: asking again for a node's lock
/// keeps the one it got first.
pub proof fn law_establish_lock_is_shared<L>(locks: Map<Seq<u8>, L>, k: Seq<u8>, first: L, second: L)
    ensures
        lock_acquired(locks, k, first).dom().contains(k),
        lock_acquired(lock_acquired(locks, k, first), k, second) == lock_acquired(locks, k, first),
        lock_acquired(locks, k, first)[k] == (if locks.dom().contains(k) {
            locks[k]
        } else {
            first
        }),
{
}

/// Releasing a node's lock once its establishment is over leaves no lock behind for it:
/// the locks are as they were before the lock was asked for.
pub proof fn law_establish_lock_is_released<L>(locks: Map<Seq<u8>, L>, k: Seq<u8>, fresh: L)
    requires
        !locks.dom().contains(k),
    ensures
        lock_acquired(locks, k, fresh).remove(k) == locks,
{
    assert(locks.insert(k, fresh).remove(k) =~= locks);
}

} // verus!
