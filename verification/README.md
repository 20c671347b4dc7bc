# steward

The logic of a controller for Trackmania dedicated servers, verified with Verus:
the state that the controller keeps about players, the playlist, map
preferences, the map queue, time limits, the race and records, the server
ranking, the chat commands and their answers, and the server's wire formats
(map file headers, XML-RPC calls and responses, script callbacks).

Layout:

- `src/` — the verified library.
  - `controller/` — state of the controller and the decisions it takes
    (queue order, time limits, records, rankings, chat forwarding, announcements,
    admin command checks), with the laws that they keep as proof functions.
  - `chat/` — chat commands (parsing, permission checks, the command reference),
    and the texts and messages that answer them.
  - `gbx/` — server data: map file headers, XML-RPC, script callbacks.
  - `compat.rs`, `config.rs`, `action.rs`, `command.rs`, `keyed.rs`, `text.rs`.
- `tests/` — tests of the library on concrete values.
- `app/` — a small command line program around the library: reading files and
  configs, and converting JSON payloads with serde.
