# mlua_scheduler

The bookkeeping and decision logic of a Roblox-like task scheduler for Luau
(`task.wait`, `task.delay`, `task.defer`, `task.spawn`, scheduler-aware async
functions), verified with Verus.

- `src/` is the verified library: the thread tracker (initiators, related
  threads, metadata, result channels), the return tracker, the resume and
  wait decisions, the timed and deferred queues of the polling scheduler, the book and run
  flags of the event-queue scheduler, and the join handles of spawned threads.
  Public functions state their effect on the library's model in their
  contracts; what travels through a channel to a waiting task (a thread's
  result) is outside that model and is not stated. The laws that relate
  several functions are public proof functions beside them.
- `app/` drives the Lua state and the async runtime with `mlua` and `tokio`,
  and asks the library what to do at each step.
- `tests/` runs the library on concrete values.
