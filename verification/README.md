# rtosu_dataprovider

An osu! data provider: it reads the memory of running osu! clients (a single
player, or a tournament manager with its spectator clients) and serves the state
as tosu-compatible `v2` JSON over HTTP and WebSocket.

## Layout

- `src/` — the library, verified with Verus. It holds the logic: address and
  number parsing, byte-pattern matching, `.osu` file scanning, mod decoding and
  naming, hit-error windows, grades, tournament chat attribution and team seats,
  the configuration rules, the phase-timing registry, log-retention planning, the
  decisions the polling sessions take (`solo_step` and `solo_play_step` for the
  single-player poll, `tournament_plan` for the tournament poll), and the
  command-line checks. Each public
  function states its result in its `ensures` clause; the laws that relate
  several functions are public proof functions (`lemma_*`).
- `tests/` — tests of the library on concrete values.
- `app/` — the program around the library: process-memory access through the
  Windows API, the polling loops that read memory, hand what they read to the
  library and perform what it decides, performance calculation with `rosu-pp`,
  the HTTP/WebSocket server, logging and the command line.

Calls into outside crates that the library makes (`rosu-mods`, `md-5`, parts of `std`)
go through a few small trusted wrappers, each documented at its definition.
