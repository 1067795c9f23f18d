# lineage_stats

Statistics backend for devices that check in daily with their model,
version, country and carrier.

- `src/` is the verified library (Verus): screening of submissions, ban
  lists, filter handling, the SQL text of every statement with its bound
  values, the statistics summary and the decisions around the IP-to-AS
  database. Calls into `regex`, `indexmap` and `str::to_uppercase` stand
  behind trusted wrappers whose contracts are stated in their doc comments.
- `app/` is the HTTP server (axum, sqlx, tokio): it parses requests, runs
  the statements that the library builds and answers.
- `tests/` exercise the library on concrete values.
