# turso_storage

The storage layer of a TaskChampion replica kept in a libsql (Turso) database.

- `src/` is the library, verified with Verus. It refuses configurations that are not
  supported (`config`: an embedded replica, or a remote database without a URL or a
  token), drives the steps of opening the database (`open`), decides every SQL statement
  that the storage issues (`statement`), turns the rows that come back into the results of
  the storage calls (`txn`), and states what the statements do to the tables (`tables`)
  together with the properties that follow (`laws`). Tasks and operations are read and
  written as JSON through `serde_json` (`json`).
- `app/` is the part that talks to the database: it builds the libsql handle, runs the
  statements, and implements TaskChampion's `Storage` and `StorageTxn` traits on top of
  the library.
- `tests/` exercises the library on concrete values and runs the storage scenarios
  against libsql databases.
