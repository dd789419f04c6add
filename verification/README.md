# kron

An application time engine: timers that run functions of the process they live in, with an
append-only history on disk, and an experimental server mode in which workers carry out the
runs of a cluster's timers.

`src/` is a library of decisions, written in Verus. Its functions have contracts over
mathematical views of their data, and every contract is proved. What others implement is left
to them: a `Clock` may show any time, and a `TimerFn` may have any name and do anything. The
library does no input or output: it says what has to be written, called or sent next, and
takes note of what came of it.

| Modules | What they decide |
| --- | --- |
| `text`, `split`, `strmap`, `paths`, `timestamp` | strings, ordered maps, paths, instants |
| `schedule`, `weekday`, `retry`, `clock`, `heap`, `timer` | when a timer runs next, and when again after a failure |
| `event`, `state`, `log`, `snapshot`, `engine` | the log of an engine, the state it stands for, compaction, the life of a run |
| `ipc`, `client`, `http`, `binding`, `commands` | what processes ask each other, and what is shown |
| `audit` | a trail of records that are chained by their hashes |
| `cluster`, `cluster_engine` | a server that keeps its commands in a file |
| `openraft_adapter` | a node of a cluster: its store, its segments, its tokens and roles, its runs |

Some results come from other crates: occurrences of cron expressions, the time zone database,
RFC 3339 texts, fresh identifiers, JSON strings and SHA-256 digests. Each such call stands in
one small function whose doc comment says what is taken for granted.

Public proof functions state what holds of the library as a whole. A few of them:

- a snapshot and the entries after it stand for the same state as the whole log
  (`snapshot::snapshot_and_tail_equal_the_log`), and a compaction can be interrupted anywhere
  (`snapshot::compaction_survives_interruption`);
- a timer has at most one active run, and a worker whose lease has expired can no longer end
  it (`openraft_adapter::file_store`, `cluster_engine`);
- a run of a worker that fails while it has attempts left waits for a worker under a new token,
  and its timer is dead only after the last one (`cluster_engine::failed_run_is_tried_again`);
  the replicated server queues such a run in the same way, but gives out runs by what is due;
- a changed byte in the magic or the payload of a log record is reported
  (`openraft_adapter::segment::changed_byte_is_reported`);
- a changed, removed or replaced audit record is found, and a verified trail stays so when a
  record is written behind it (`audit`);
- what is written as HTTP is what is read (`http::laws`).

`tests/` runs the library. `app/` is the program around it: the command line, files, sockets,
the consensus protocol and the Python module.
