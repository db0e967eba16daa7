# soksak-sidecar-db-studio

The service behind DB Studio: it holds SQLite databases open under profiles and runs
queries, changes, migrations and introspection on them, with an audit of what was run.

`src/` is the verified library. It performs no I/O. An operation is a chain of steps:
each step says what to ask of a database, and the reply leads to the next one. The
contracts state every step exactly, and the modules named `laws` or `*_laws` prove what
holds of whole runs: what is recorded, what may be run, what leaves the service, and that
a migration is one transaction.

`app/` is the program around it. `driver.rs` performs the steps with `rusqlite`,
`wire.rs` puts the service on the `soksak-spec-service` wire, `values.rs` and
`verdicts.rs` convert between the library's types and JSON.

`tests/` runs the library: on plain values, on steps answered by hand, and against real
databases.
