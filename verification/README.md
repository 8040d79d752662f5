# tari_comms connection manager

The connection manager of a peer-to-peer node, verified with Verus.

- `src/node_id.rs`: node identifiers (byte strings).
- `src/node_map.rs`: a table keyed by node id, viewed as a map.
- `src/types.rs`: connection states, errors and settings.
- `src/live_connections.rs`: the live connections, at most one per node, with the
  limit on active connections.
- `src/manager.rs`: the connection manager: the decisions taken while establishing a
  connection (a state machine driven by the outcomes of the outside work), shutting
  connections down, and the per-node establishment locks.
- `src/laws.rs`: properties that relate several operations.
- `app/lib.rs`: runs the manager against the peer store, the connection protocol,
  locks and threads.
