# delta_kernel

Building blocks for reading Delta tables, verified with Verus.

- `src/expressions`: scalars, expressions, predicates, column names and SQL comparisons.
- `src/history_manager`: from timestamps to table versions.
- `src/engine`: how Arrow types fit a table's types, which Parquet row groups can be skipped, how
  operations are routed to plans, and plans and listings over batches in memory.
- `src/engine_data.rs`, `src/schema.rs`, `src/error.rs`: engine data, types and errors.
- `app`: what reads and writes around the library, and conversions from Arrow, Parquet and JSON.
- `tests`: the library from outside.

The library itself reads nothing: callers hand in what they read and act on what comes back. Laws
that relate several functions are public proof functions whose names begin with `law_`.
