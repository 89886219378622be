# wh_broker

The Wheelhouse broker and its deploy pipeline, written in Verus.

- `src/` — the verified library: control protocol and type registry,
  stream framing and WAL bookkeeping, compaction summaries, cron chains,
  silence monitoring, the `wh-cli` skill's permission rules, and the deploy
  pipeline (topology validation, folder merge, subsystem expansion, lint,
  plan and plan hash, commit messages, container provisioning plans,
  destroy steps, persona and memory files, `.gitignore` upkeep).
  Every public function carries a contract; `law_*` proof functions state
  properties that relate several calls.
- `app/` — the broker binary and the I/O around the library: ZeroMQ
  sockets, SQLite WAL storage, files, git and podman processes, serde
  forms of the library's types, and the tokio tasks.
- `tests/` — tests run against the compiled library.
