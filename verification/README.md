# redislock

A distributed lock over several independent Redis instances (the Redlock
scheme), written in Verus.

- `src/` is the verified library. `manager` holds the lock manager (the
  clients, the quorum `N/2 + 1`, the retry settings); `session` is one call
  of `lock` as a state machine that says what to do next and is told what
  came of it; `protocol` holds what is sent to an instance and a model of
  what an instance does with it; `cluster` proves the laws of whole calls
  against that model (mutual exclusion, taking the lock again after
  `unlock`); `words` draws random lock values; `instance` reads the
  instances' replies; `outside` holds the trusted calls into `redis` and
  `rand`.
- `app/` performs the network requests, reads the clock, sleeps, reads
  `/dev/urandom`, and provides the blocking and async `acquire` with a guard
  that unlocks when dropped.
- `tests/` runs the library, with the instances kept in memory.
