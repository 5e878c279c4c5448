# prest_host

The host of a prest app, with its logic verified by Verus.

- `src/` is the verified library: the multi-version row snapshots and the
  write path of the store (`snapshot`, `storage`, `index_scan`, `keys`,
  `lock`), the rules of authentication (`auth`, `roles`), route analytics,
  and the decisions of the admin panel, proxy, runtime and server (`admin`,
  `proxy`, `runtime`, `host`, `system`, `deploy`, `config`, `logs`,
  `assets`, `text`). Calls into outside crates go through a few trusted
  wrappers whose contracts are stated next to them.
- `tests/` runs the library on concrete values.
- `app/` is the server around the library: sled and bitcode I/O, the axum
  router, log files, system sampling and the build of release binaries.
