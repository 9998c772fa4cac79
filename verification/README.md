# claude_view_server

The request logic of a local session-viewer HTTP server, verified with Verus:
the plugin catalogue and its filters, session listing, search planning,
reports, sharing, the sidecar proxy's decisions, statistics and storage
accounting.

- `src/` is the verified library. Each module states its functions' results
  in `ensures` over spec functions, and the properties that relate several
  functions stand as public proof functions named `law_*`.
- `tests/` runs the library on concrete values.
- `app/` holds what is input and output around it: reading the plugin CLI's
  JSON and cache files, walking directories for storage totals, and pricing
  cost estimates in floating point.
