# netmon

A connectivity monitor: it probes targets over TCP on a fixed beat, stores every
result in SQLite, groups failures into outages and serves a dashboard.

- `src/` is the library, verified with Verus: settings and their sources, the
  domain types, the steps of a probe, the rows of the database, outages and
  statistics, what HTTP requests ask for and are answered, and the healthcheck.
  Each function's contract says what it returns; proof functions named `law_…`
  state what holds across functions. `src/platform.rs` holds the few calls into
  the standard library and `chrono` that are believed rather than proved.
- `tests/` runs the library, in part against a real in-memory database.
- `app/` is the program around it: sockets, files, the environment, SQL and JSON.

Settings come from built-in defaults, overridden by a JSON file (`CONFIG_PATH`,
`config.json` if unset), overridden by environment variables:

| Variable              | File key              | Default     | Range                       |
| --------------------- | --------------------- | ----------- | --------------------------- |
| `PORT`                | `port`                | `3000`      | 1 to 65535                  |
| `DB_PATH`             | `db_path`             | `netmon.db` | not blank                   |
| `CHECK_INTERVAL_SECS` | `check_interval_secs` | `10`        | 1 to 3600                   |
| `CHECK_TIMEOUT_SECS`  | `check_timeout_secs`  | `5`         | 1 to 60, at most the interval |
| `TARGETS`             | `targets`             | 3 built-ins | `Name=host:port,host2:port2` |

A value out of range, or a file that cannot be used, stops the program at start.
`netmon healthcheck [port]` asks a running instance for its health and exits with
0 where it is healthy, with 1 otherwise.
