# errai

An Erlang-style process runtime, as a verified library.

`src/` holds the runtime's data model and decision logic, proved with Verus:

- `types`: atoms and the table that interns them, process identifiers,
  references, destinations, exit reasons, and their decimal rendering.
- `error`: exceptions (class, group, message).
- `erts::table`: the fixed-capacity process table, a ring of free slot ids
  laid out over cache-line blocks; PIDs encode a slot and a generation.
- `erts::signal`: what a process does with each signal it receives (exit,
  link, unlink, monitor, demonitor, messages), stated as a step from one
  process state to the next; a step may queue signals for other processes
  in the receiver's outbox, as the unlink acknowledgement is.
- `erts::process`: the process API over an explicit task, process table
  and name registry; spawning takes the next PID of the table.
- `erts::dict`, `erts::registry`, `erts::queue`, `erts::state`,
  `erts::flags`, `erts::spawn`, `erts::runtime`, `erts::message`.

`app/` holds what stays outside the proofs: dynamically typed terms, the
tokio signal channels, clocks and thread-local counters, and the error type
that carries a backtrace.
