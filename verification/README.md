# health_monitor

A service that polls web endpoints, stores each health check in SQLite,
reports failed checks and notifies through Pushover when an endpoint is down,
and serves the checks over an HTTP API.

- `src/` is the library, verified with Verus: the configuration lookup
  (`config`), the storage statements and their parameters (`db`), the record
  of failed polls and its reports (`poll`), the fields of a Pushover message
  (`pushover`), the choice of endpoints to notify
  about and the messages (`notify`), the API's answers (`api`), and decimal
  formatting and joining of text (`text`).
- `app/` is the program around it: reading `config.toml`, the SQLite pool,
  HTTP polling with reqwest, the tokio loops and the axum server.
- `tests/` runs the library on concrete values.
