# yaam

The decisions behind a memory service for agents and the programs around it, with every one of them
proved to do what its contract says.

An agent records what it did by putting one line on a local socket. A sidecar on the same host vets
the line, seals it, signs it and posts it, and spools it while the service is away. An operator
rebuilds, drains, erases, backs up and checks the store. A guard decides what may be committed beside
it. What each of these refuses, reports, sends and exits with is in this library.

## Layout

- `src/agent` — the sidecar: what is taken from a caller, the spool and the order records go out in,
  where a request goes and who it is signed as, what an answer means, and the read proxy.
- `src/cli` — the programs: settings and their precedence, the record an emitter builds, the request a
  reader makes and the answer it reads, the operator reports, the commit guard, the keyring, legal
  holds and retention, the startup log, and the exit codes all of them share.
- `src/text.rs`, `src/path.rs`, `src/hexed.rs`, `src/json.rs` — text, paths, hexadecimal and JSON.
- `src/contract.rs` — a record as the library holds one.
- `tests` — the library from outside, on concrete values.
- `app` — the executable: arguments, files, sockets, clocks, signals and the store itself.

Public proof functions named `law_…` state what holds across several functions at once.
