# two_phase_commit

The coordinator of a two-phase commit protocol, verified with Verus.

- `src/protocol.rs` states the coordinator as a state machine: `next` maps
  the coordinator's state, the "still running" flag and the outcome of the
  last piece of outside work to the next state and the next piece of outside
  work (send, poll, pause, finish). `inv` is what every reachable state keeps.
- `src/laws.rs` proves what holds of every run: the invariant is kept, a
  commit goes out only after unanimous commit votes, the last vote decides,
  silence aborts, all participants of a round get the same decision, the
  status counts follow the decisions, every taken request ends up committed,
  aborted or (when the run is cut short) unknown, the result returns to the
  requester, a cleared flag ends the run for good.
- `src/coordinator.rs` is the executable coordinator (`Coordinator::step`
  refines `next`), with its peer tables.
- `src/message.rs`, `src/oplog.rs`, `src/names.rs`: messages and uids, the
  operation log, the decimal peer names.
- `app/` is the program around it: options, child processes, IPC channels,
  pauses, the log file and the status line.
