# sitas

Shard-per-core services and the single-threaded executor beneath them.

- `src/` is the library: task states, ready queues, timers, readiness interests,
  completion rings, mailboxes, streams, the key-value store and the counter, the
  placement of work on shards, and the decisions of the TCP server. Every
  concurrent object is a plain value whose methods have contracts proved by Verus.
  Laws that relate several operations stand beside them as proof functions. What
  differs between Linux and other Unix systems is a parameter, `Platform`, and
  what differs between machines is part of a `Host`.
- `tests/` runs the library: whole executor runs with a clock that the test moves,
  rings against a kernel that the test plays, and the services shard by shard.
- `app/` puts the values behind locks, wakers, sockets and threads.
