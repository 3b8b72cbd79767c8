# f_log

A simple, fast logger with a background writer, verified with Verus.

Messages are handed to a channel at one end (`FLog`) and become stamped lines of
output at the other (`Writer`). The writer gathers messages into batches and
decides when to write and when to flush, by the thresholds of its `LoggerConfig`.

- `src/` is the library. Its writer is a state machine (`state.rs`), which the
  code in `writer.rs` is proved to follow; `laws.rs` states what holds of a logger
  and its writer as a whole: that what was logged comes out once and in order,
  while the logger runs as much as after, that a flush leaves nothing waiting, that
  a writer stops only with everything written and flushed, that the stamp of each
  line is less than a second old.
- `app/` holds the threads, the standard error stream, the panic hook, the global
  and the thread-local logger, and the logging macros.
- `tests/` holds the tests of the library.

The library calls `chrono` for the local time, `crossbeam-channel` for the channel,
`crossbeam-queue` for the pool of spare strings and `smallvec` for the batch. What
is claimed of each call stands above the function that makes it.
