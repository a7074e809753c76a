# wwrpc

Discord Rich Presence for Wuthering Waves on Linux: waits for the game, reads
level and region from a private copy of its storage, and shows a card.

The decisions are a library proved with Verus, under `src/`:

- `text`, `json`: texts and documents, and what the rest says of them.
- `character`: the playable characters and their icons.
- `db`: the game's storage. `accounts` and `remnant` read documents and
  telemetry bytes, `query` asks a database, `triage` and `snapshot` judge a
  copy, `storage` finds the game, and `reader` keeps what is known from one
  tick to the next.
- `presence`: what a card says and which one a tick decides for.
- `session`: sessions, the two slots, and what is sent when.
- `ipc`, `lock`, `log`, `cli`, `detect`: frames, the pid file, log lines,
  options, and the database of detectable games.

Each function states what it returns or changes. What holds of the library as
a whole stands beside it as public proof functions.

The program itself, under `app/`, opens files, sockets and processes, and does
what the library says. `tests/` runs the library on concrete values.
