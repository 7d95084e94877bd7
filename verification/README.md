# meowth

A lightweight log shipper: it receives JSON log records over ZeroMQ or
TCP, completes them, and pushes them in bulk to a set of search-cluster
nodes used in turn.

- `src/` is the verified library (Verus): TCP stream framing
  (`framing`), bulk request assembly and document ids (`bulk`), record
  enrichment (`models`), YAML configuration loading (`config`), and the
  round-robin client manager with its retry queue (`es_manager`).
- `app/` is the program around it: option parsing, threads, sockets,
  JSON (de)serialisation of records, metrics, and the search-cluster
  client itself.
- `tests/` exercises the library on concrete values.
