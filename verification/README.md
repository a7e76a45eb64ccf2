# backroll

The decision core of a peer-to-peer rollback session, verified with Verus.

A `P2PSession` decides when a poll may run, which players have to be dropped and to
which frame the simulation goes back for it, which frame every connected player has
confirmed, and which requests are refused. It does no work itself: every operation
returns a `Turn`, the actions to perform in order and the place where the session goes
on once they are performed.

- `src/model.rs` is the session as a mathematical state machine; `src/p2p.rs` is the
  code, proved to do exactly what the model says.
- `src/laws.rs` states what holds of every session, `src/runs.rs` of every run of turns,
  whatever is observed between them, and `src/history.rs` of every sequence of calls.
- `src/player.rs`, `src/peer.rs`, `src/status.rs`, `src/frame.rs` and `src/action.rs`
  hold the values that a session works on. The locks of the shared status table come
  from `parking_lot`.
- `app/` performs the actions against a synchronizer and endpoints.
