use vstd::prelude::*;

verus! {

/// The state of a connection to a peer.
#[derive(Clone, Debug, PartialEq, Eq)]
pub enum PeerConnectionState {
    /// The connection has been created but not started.
    Initial,
    /// The connection is being established.
    Connecting,
    /// The connection is established, to the given address when it is a TCP socket.
    Connected(Option<String>),
    /// The connection waits for the peer on the given address when it is a TCP socket.
    Listening(Option<String>),
    /// The peer has disconnected.
    Disconnected,
    /// The connection has been shut down.
    Shutdown,
    /// The connection failed with the given error.
    Failed(String),
}

impl PeerConnectionState {
    /// A connection in this state is in use: listening, connecting or connected.
    pub open spec fn active(&self) -> bool {
        match self {
            PeerConnectionState::Connecting => true,
            PeerConnectionState::Connected(_) => true,
            PeerConnectionState::Listening(_) => true,
            _ => false,
        }
    }

    /// Whether a connection in this state is in use.
    pub fn is_active(&self) -> (r: bool)
        ensures
            r == self.active(),
    {
        match self {
            PeerConnectionState::Connecting => true,
            PeerConnectionState::Connected(_) => true,
            PeerConnectionState::Listening(_) => true,
            _ => false,
        }
    }
}

/// What can go wrong while managing peer connections.
#[derive(Clone, Debug, PartialEq, Eq)]
pub enum ConnectionManagerError {
    /// No more connections are accepted: the active ones have reached the maximum.
    MaxConnectionsReached,
    /// There is no connection for the peer.
    PeerConnectionNotFound,
    /// The peer store failed, with the given message.
    PeerManagerError(String),
    /// The peer connection failed, with the given message.
    ConnectionError(String),
    /// The thread of a peer connection could not be joined, with the given message.
    PeerConnectionThreadError(String),
    /// The data store could not be opened.
    DatastoreError,
}

/// The settings with which peer connections are made.
#[derive(Clone, Debug, PartialEq, Eq)]
pub struct PeerConnectionConfig {
    /// How long, in milliseconds, to wait for a peer to accept a new connection.
    pub peer_connection_establish_timeout_ms: u64,
    /// The largest message, in bytes, that a connection accepts.
    pub max_message_size: u64,
    /// The host on which connections listen.
    pub host: String,
    /// How many times to retry connecting to a peer.
    pub max_connect_retries: u16,
    /// The most connections that may be active at once.
    pub max_connections: usize,
    /// The address to which received messages are forwarded.
    pub message_sink_address: String,
    /// The SOCKS proxy through which to connect, if any.
    pub socks_proxy_address: Option<String>,
}

} // verus!
