use tari_comms::manager::{
    finish_connection_shutdown, ConnectionManager, EstablishAction, EstablishEvent, EstablishStart,
};
use tari_comms::node_id::NodeId;
use tari_comms::types::{ConnectionManagerError, PeerConnectionConfig, PeerConnectionState};

fn config(max_connections: usize) -> PeerConnectionConfig {
    PeerConnectionConfig {
        peer_connection_establish_timeout_ms: 5000,
        max_message_size: 1024,
        host: "127.0.0.1".to_string(),
        max_connect_retries: 3,
        max_connections,
        message_sink_address: "inproc://message-sink".to_string(),
        socks_proxy_address: None,
    }
}

fn node(b: u8) -> NodeId {
    NodeId::from_bytes(vec![b, 1, 2, 3, 4, 5, 6, 7, 8, 9, 10, 11, 12])
}

fn connected() -> PeerConnectionState {
    PeerConnectionState::Connected(Some("127.0.0.1:43456".to_string()))
}

/// Runs a whole establishment whose outside work all succeeds.
fn establish_new(
    manager: &mut ConnectionManager<u32, u8>,
    id: &NodeId,
    conn: u32,
    state: PeerConnectionState,
) -> EstablishAction<u32> {
    assert_eq!(
        manager.on_establish_event(id.clone(), EstablishEvent::AttemptsReset(Ok(()))),
        EstablishAction::Negotiate
    );
    assert_eq!(
        manager.on_establish_event(id.clone(), EstablishEvent::Negotiated(Ok(()))),
        EstablishAction::AwaitAcceptance(5000)
    );
    manager.on_establish_event(id.clone(), EstablishEvent::Accepted(Ok((conn, state))))
}

#[test]
fn get_active_connection_count() {
    let manager: ConnectionManager<u32, u8> = ConnectionManager::new(config(10));
    assert_eq!(manager.get_active_connection_count(), 0);
}

#[test]
fn shutdown_connection_for_peer() {
    let mut manager: ConnectionManager<u32, u8> = ConnectionManager::new(config(10));
    assert_eq!(manager.get_active_connection_count(), 0);

    let peer = node(7);
    assert!(manager.shutdown_connection_for_peer(&peer).is_none());

    manager.add_connection(peer.clone(), 42, connected()).unwrap();

    match manager.shutdown_connection_for_peer(&peer) {
        Some(conn) => {
            assert_eq!(finish_connection_shutdown(conn, Ok(())), Ok(Some(42)));
        },
        None => panic!("shutdown_connection_for_peer did not return active peer connection"),
    }
}

#[test]
fn establish_new_connection_then_reuse_it() {
    let mut manager: ConnectionManager<u32, u8> = ConnectionManager::new(config(10));
    let id = node(1);
    assert_eq!(manager.establish_connection_to_peer(&id), EstablishStart::Initiate(None));
    assert_eq!(establish_new(&mut manager, &id, 11, connected()), EstablishAction::Finished(Ok(None)));
    assert_eq!(manager.get_connection(&id), Some(&11));
    assert_eq!(manager.get_active_connection_count(), 1);
    assert_eq!(manager.establish_connection_to_peer(&id), EstablishStart::UseExisting);
    assert_eq!(manager.get_connection(&id), Some(&11));
    assert_eq!(manager.connection_count(), 1);
}

#[test]
fn listening_and_connecting_connections_are_reused() {
    let mut manager: ConnectionManager<u32, u8> = ConnectionManager::new(config(10));
    manager.add_connection(node(1), 1, PeerConnectionState::Listening(None)).unwrap();
    manager.add_connection(node(2), 2, PeerConnectionState::Connecting).unwrap();
    manager.add_connection(node(3), 3, PeerConnectionState::Connected(None)).unwrap();
    manager.add_connection(node(4), 4, PeerConnectionState::Listening(Some("127.0.0.1:1".to_string()))).unwrap();
    for b in 1..5u8 {
        assert_eq!(manager.establish_connection_to_peer(&node(b)), EstablishStart::UseExisting);
    }
    assert_eq!(manager.get_active_connection_count(), 4);
    assert_eq!(manager.connection_count(), 4);
}

#[test]
fn stale_connections_are_dropped_and_replaced() {
    let stale_states = vec![
        PeerConnectionState::Initial,
        PeerConnectionState::Disconnected,
        PeerConnectionState::Shutdown,
        PeerConnectionState::Failed("connection reset".to_string()),
    ];
    for (i, state) in stale_states.into_iter().enumerate() {
        let mut manager: ConnectionManager<u32, u8> = ConnectionManager::new(config(10));
        let id = node(i as u8);
        manager.add_connection(id.clone(), 100, state).unwrap();
        assert_eq!(manager.get_active_connection_count(), 0);
        assert_eq!(manager.establish_connection_to_peer(&id), EstablishStart::Initiate(Some(100)));
        assert_eq!(manager.get_connection(&id), None);
        assert_eq!(establish_new(&mut manager, &id, 200, connected()), EstablishAction::Finished(Ok(None)));
        assert_eq!(manager.get_connection(&id), Some(&200));
    }
}

#[test]
fn failed_steps_end_the_attempt() {
    let mut manager: ConnectionManager<u32, u8> = ConnectionManager::new(config(10));
    let id = node(1);
    assert_eq!(
        manager.on_establish_event(id.clone(), EstablishEvent::AttemptsReset(Err("store closed".to_string()))),
        EstablishAction::Finished(Err(ConnectionManagerError::PeerManagerError("store closed".to_string())))
    );
    assert_eq!(
        manager.on_establish_event(
            id.clone(),
            EstablishEvent::Negotiated(Err(ConnectionManagerError::ConnectionError("refused".to_string())))
        ),
        EstablishAction::Finished(Err(ConnectionManagerError::ConnectionError("refused".to_string())))
    );
    assert_eq!(
        manager.on_establish_event(id.clone(), EstablishEvent::Accepted(Err("timed out".to_string()))),
        EstablishAction::Finished(Err(ConnectionManagerError::ConnectionError("timed out".to_string())))
    );
    assert_eq!(manager.connection_count(), 0);
    assert_eq!(manager.get_connection(&id), None);
}

#[test]
fn establish_to_node_id_reports_peer_store_failure() {
    let mut manager: ConnectionManager<u32, u8> = ConnectionManager::new(config(10));
    let id = node(1);
    assert_eq!(
        manager.establish_connection_to_node_id(&id, Err("peer not found".to_string())),
        Err(ConnectionManagerError::PeerManagerError("peer not found".to_string()))
    );
    assert_eq!(manager.establish_connection_to_node_id(&id, Ok(())), Ok(EstablishStart::Initiate(None)));
    manager.add_connection(id.clone(), 5, connected()).unwrap();
    assert_eq!(manager.establish_connection_to_node_id(&id, Ok(())), Ok(EstablishStart::UseExisting));
}

#[test]
fn max_connections_refuses_new_active_connections() {
    let mut manager: ConnectionManager<u32, u8> = ConnectionManager::new(config(1));
    assert_eq!(manager.establish_requested_outbound_connection(), Ok(()));
    assert_eq!(establish_new(&mut manager, &node(1), 1, connected()), EstablishAction::Finished(Ok(None)));
    assert_eq!(
        manager.establish_requested_outbound_connection(),
        Err(ConnectionManagerError::MaxConnectionsReached)
    );
    assert_eq!(
        establish_new(&mut manager, &node(2), 2, connected()),
        EstablishAction::Finished(Err(ConnectionManagerError::MaxConnectionsReached))
    );
    assert_eq!(
        manager.register_requested_outbound_connection(node(3), Ok((3, connected()))),
        Err(ConnectionManagerError::MaxConnectionsReached)
    );
    assert_eq!(manager.connection_count(), 1);
    assert_eq!(manager.get_connection(&node(2)), None);
}

#[test]
fn inactive_connections_do_not_count_against_the_limit() {
    let mut manager: ConnectionManager<u32, u8> = ConnectionManager::new(config(1));
    manager.add_connection(node(1), 1, PeerConnectionState::Disconnected).unwrap();
    assert_eq!(manager.get_active_connection_count(), 0);
    assert_eq!(manager.add_connection(node(2), 2, connected()), Ok(None));
    assert_eq!(manager.get_active_connection_count(), 1);
    assert!(manager.set_connection_state(&node(2), PeerConnectionState::Shutdown));
    assert_eq!(manager.get_active_connection_count(), 0);
    assert!(!manager.set_connection_state(&node(9), connected()));
    assert_eq!(manager.connection_count(), 2);
}

#[test]
fn requested_outbound_connection_is_recorded() {
    let mut manager: ConnectionManager<u32, u8> = ConnectionManager::new(config(5));
    assert_eq!(
        manager.register_requested_outbound_connection(
            node(1),
            Err(ConnectionManagerError::ConnectionError("no route".to_string()))
        ),
        Err(ConnectionManagerError::ConnectionError("no route".to_string()))
    );
    assert_eq!(manager.register_requested_outbound_connection(node(1), Ok((8, connected()))), Ok(None));
    assert_eq!(manager.get_connection(&node(1)), Some(&8));
    assert_eq!(manager.register_requested_outbound_connection(node(1), Ok((9, connected()))), Ok(Some(8)));
    assert_eq!(manager.get_connection(&node(1)), Some(&9));
    assert_eq!(manager.connection_count(), 1);
}

#[test]
fn establish_locks_are_shared_and_released() {
    let mut manager: ConnectionManager<u32, u8> = ConnectionManager::new(config(5));
    let id = node(1);
    assert_eq!(manager.establish_lock(&id), None);
    manager.acquire_establish_lock(id.clone(), 10);
    assert_eq!(manager.establish_lock(&id), Some(&10));
    manager.acquire_establish_lock(id.clone(), 20);
    assert_eq!(manager.establish_lock(&id), Some(&10));
    manager.release_establish_lock(&id);
    assert_eq!(manager.establish_lock(&id), None);
    manager.acquire_establish_lock(id.clone(), 30);
    assert_eq!(manager.establish_lock(&id), Some(&30));
}

#[test]
fn shutdown_hands_back_every_connection() {
    let mut manager: ConnectionManager<u32, u8> = ConnectionManager::new(config(5));
    manager.add_connection(node(1), 1, connected()).unwrap();
    manager.add_connection(node(2), 2, PeerConnectionState::Disconnected).unwrap();
    manager.add_connection(node(3), 3, connected()).unwrap();
    let _ = manager.shutdown_connection_for_peer(&node(2));
    manager.add_connection(node(4), 4, connected()).unwrap();
    let mut handles = manager.shutdown();
    handles.sort();
    assert_eq!(handles, vec![1, 3, 4]);
}

#[test]
fn shutdown_for_peer_twice_finds_nothing_the_second_time() {
    let mut manager: ConnectionManager<u32, u8> = ConnectionManager::new(config(10));
    manager.add_connection(node(1), 1, connected()).unwrap();
    manager.add_connection(node(2), 2, connected()).unwrap();
    assert_eq!(manager.shutdown_connection_for_peer(&node(1)), Some(1));
    assert_eq!(manager.shutdown_connection_for_peer(&node(1)), None);
    assert_eq!(manager.get_connection(&node(2)), Some(&2));
    assert_eq!(manager.get_active_connection_count(), 1);
    let mut ids: Vec<Vec<u8>> = manager.connected_node_ids().iter().map(|id| id.as_bytes().clone()).collect();
    ids.sort();
    assert_eq!(ids, vec![node(2).as_bytes().clone()]);
}

#[test]
fn thread_join_failure_is_reported() {
    assert_eq!(
        finish_connection_shutdown(5u32, Err("thread timed out".to_string())),
        Err(ConnectionManagerError::PeerConnectionThreadError("thread timed out".to_string()))
    );
}

#[test]
fn node_ids_compare_by_bytes() {
    assert!(node(1).same_as(&node(1)));
    assert!(!node(1).same_as(&node(2)));
    assert!(!node(1).same_as(&NodeId::from_bytes(vec![1])));
    assert_eq!(node(3).clone().as_bytes(), node(3).as_bytes());
    assert_eq!(manager_config_timeout(), 5000);
}

fn manager_config_timeout() -> u64 {
    let manager: ConnectionManager<u32, u8> = ConnectionManager::new(config(5));
    manager.config().peer_connection_establish_timeout_ms
}
