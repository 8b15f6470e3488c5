# restate_sdk

A Rust SDK core for [Restate](https://restate.dev/) services, written in Verus.

`src/` is the verified library:

- `wire`, `codec`: the protobuf wire format and the journal entries' messages,
  with round-trip laws (what is read back of what was written).
- `message`: the framing of the service protocol (message types, 8-byte
  headers, the frame decoder) and the decoding of the runtime's messages.
- `store`: the local copy of an invocation's state.
- `invocation`: gathering an invocation from its start message and the entries
  to replay.
- `journal`: replaying entries and keeping the entries that await their
  completion; its laws (a closed journal stays closed, the replay ends at the
  last replayed entry, a completed entry resolves to its value, ...).
- `machine`: the state machine that decides which entries go to the runtime.
- `syscall`, `context`, `endpoint`: what a poll of a system call, an awakeable,
  a timeout or a request route decides.
- `types`, `openapi`, `logger`, `test_utils`: invocation types, admin API
  models, the replay log filter and the journal query of the tests.
- `shared_map`: the `dashmap` map that holds journal entries, behind trusted
  specifications.

`app/` is the program around it: the HTTP/2 endpoint (hyper), the connection's
byte streams, the tasks that drive an invocation, and the futures the user code
awaits.
