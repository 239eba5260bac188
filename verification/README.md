# arena_server

The game server of *arena*, split in two:

- `src/` is a library verified with Verus. It holds the server's rules:
  shard selection, per-recipient mail rate limiting, mail composition and the
  delivery retry policy, one-time passwords and session cookies, password
  login, leaderboard run checks, entitlements, background-job decisions, the
  room's tick bookkeeping, the WebSocket protocols as state machines,
  configuration resolution and the names of hashed web assets. Calls into
  outside crates (hashing, encodings, random numbers, address validation)
  go through small trusted functions whose contracts are stated next to them.
- `app/` is the program around it: command line, HTTP routes, WebSockets,
  WebRTC, the database and the SMTP transport.
- `tests/` exercises the library.
