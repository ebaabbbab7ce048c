# claude_code_sync

Keeps conversation histories and `settings.json` of several machines in step through a shared
repository: a pull brings remote sessions in, a push sends local ones out, and a synchronisation
does both.

- `src/` is the verified library. It decides: which settings win, where each session goes, which
  conflicts are merged, kept or asked about, in which order things happen, and what is reported.
  Pulls and pushes are runs that name one action at a time and take its result.
- `src/json.rs` and `src/clock.rs` hold what is taken on trust of `serde_json`, `chrono` and the
  clock.
- `src/*_laws.rs` state what holds of whole runs, whatever the outside answers.
- `app/` reads and writes files, talks to the user and to the repository, and carries out what the
  library names.
- `tests/` runs the library on given values.
