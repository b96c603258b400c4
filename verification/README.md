# irodori_lakehouse

The logic of a connector that lets a client work with lakehouse tables through DuckDB: it opens
sessions, runs statements, exposes Delta, Iceberg and Parquet tables as views, and browses an Iceberg
REST catalog, whose namespaces surface as schemas and whose tables surface as objects.

- `src/` is the library. Every function is verified with Verus against a contract over mathematical
  models: texts are sequences of characters, JSON objects are maps, open connections are a map by
  identifier. It does no input or output. What takes several requests or statements is a step
  function from what came back to what comes next; what holds of whole runs is proved beside it.
- `tests/` holds its tests.
- `app/` is the connector itself: it hands buffers in and out, and performs the steps with DuckDB and
  HTTP.

JSON text is read and written by `serde_json`. That, and `String::push` of the standard library, is
what the proofs rest on without proving it: see `src/json_text.rs` and `src/text.rs`.
