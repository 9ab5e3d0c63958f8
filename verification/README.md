# uni_db

The decision logic of an embedded graph database's API layer, written in
Verus and proved against its contracts: query classification and error
normalization, the plan cache, schema definition and introspection, bulk
loading (buffering, flushing, constraint validation, rollback), transactions,
sessions and parameters, rule-program registration and result handling, fork
administration, opening a database, and the authorization resource a
statement touches.

Layout:

- `src/` — the verified library, one module per area (`plan_cache`, `schema`,
  `catalog` (applying a batch of schema changes atomically), `bulk`, `bulk_commit` (the steps of committing a bulk load), `transaction`, `session`, `params`, `locy`, `open`, `fork`,
  `results`, `authz`, `time_travel`, `errors`, `verb`, `value`, `text`, `builder`,
  `prepared`). Public proof functions named `law_*` state properties that hold
  across calls.
- `tests/` — tests of the library on concrete values.
- `app/` — what stays outside verification: the loop that runs a bulk-load
  commit against storage, serializable copies of the
  introspection types, the throttle-pressure figure and the floating-point side
  of CHECK constraints, removing a temporary database directory and the
  date-time form of a time-travel instant.
