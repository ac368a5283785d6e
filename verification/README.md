# gtbot

The verified core of a game bot's connection logic.

- `src/text.rs`: `str`-like operations (`lines`, `trim`, `split_once`,
  `starts_with`, unsigned `parse`, decimal `Display`) on `Vec<char>` ranges,
  each proved against a spec function.
- `src/server_data.rs`: the login form, the `key|value` answer of the
  server-data directory, and the choice between a private server and the
  official directory.
- `src/ws.rs`: the websocket link's state machine.
- `src/credentials.rs`: the decisions of the credential fetch loop.
- `app/`: the HTTP requests, the websocket I/O, the environment, and the
  waiting loop, driving the library.
