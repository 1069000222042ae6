# a3s-box

The command line and the Docker-compatible API of a MicroVM runtime, with its
decisions proved in Verus.

- `src/` is the library. `commands` holds what each command of the program reads,
  decides, keeps in the state and prints; `api` holds the requests and replies of
  the HTTP API; the modules beside them hold what these share: box records and
  their state (`state`, `status`, `boot`, `cleanup`), text (`text`, `split`,
  `strmap`, `glob`, `number`, `sizes`, `duration`, `path`, `layout`, `sort`), and
  the formats that come from outside crates (`json`, `gzip`, `base64`, `digest`,
  `time`, `bytes`, `case`).
- `tests/` runs the library with those crates.
- `app/` is the program: arguments, files, processes, sockets and terminals. It
  asks a runtime service on `~/.a3s/runtime.sock` for what concerns the virtual
  machines, the image store and the registries.

Work that goes back and forth between a decision and the outside (bringing a
compose project up, setting a box up, booting it, following a log, watching for
restarts) is written as a step from a state and an event to the next state and
action. The proof functions named `lemma_..` that are public state what holds of
the library as a whole, such as that tearing a project down goes in the reverse
order of bringing it up, or that a restart keeps a box's configuration.
