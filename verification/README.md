# jamsession

A daemon that sits between ACP clients (editors, CLIs) and ephemeral AI
coding agents: it spawns agents on demand, relays messages, persists
session history in SQLite, kills idle agents and respawns them on reconnect,
and optionally records a trace of every message.

## Layout

- `src/` — the verified library (Verus): the daemon's state machines,
  routing, formats and rules, each function with its contract:
  - `dispatcher` — the session state machine: clients, agents, sessions,
    generation-counted quiescence and idle timers, routing, respawn, the
    handler of each client request method; each step returns the effects
    the driver performs.
  - `pipe` — the conversation with a newly spawned agent (`initialize`,
    `session/new` or `session/resume`, model selection, guidelines).
  - `command`, `json`, `jsontext` — the `jamsession` tool's JSON commands,
    help texts and JSON text.
  - `slash`, `message` — `/jamsession:*` commands and team messages.
  - `db`, `traces` — the stored rows and what the store's queries return;
    trace rows and how they are read back.
  - `debug` — the trace viewer's request routing and query parsing, and
    the instants that `--since`, `--today` and `--ago` name.
  - `config`, `model`, `events`, `errors`, `cli`, `factory` — configuration,
    model selection, lifecycle-event traces, request errors, command-line
    decisions, the crash-after-delay agent factory.
  - `text`, `order`, `number`, `table`, `tables` — strings, ordering,
    integer parsing and rendering, and the dispatcher's tables.
- `app/` — the executable around the library: command line (it reads the
  clock and hands the instant to the library for `--today` and `--ago`),
  config file, Unix socket and ACP transports,
  the SQLite store and its statements (the row model they follow is in
  `src/db`), the HTTP viewer.
- `tests/` — tests of the library.
