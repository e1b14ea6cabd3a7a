# coevo_server

The decision logic of the coevo control-plane HTTP server, written in Verus and proved
against its contracts.

- `src/` — the verified library: company scoping of legacy routes, meeting rules (stances,
  participant names, transcript parsing, responsibility anchors, prompts and personas), report
  windows and sources, cost grouping by department, worker binding, run cancellation, tool
  policy gates, traces, event streams, request origins and metadata headers. Calls into
  chrono, uuid, hex, rand and the standard library's text conversions stand behind small
  trusted wrappers whose contracts are stated in their doc comments.
- `tests/` — tests run against the compiled library.
- `app/` — the process shell around the library: environment, CORS and token middleware,
  JSON bodies and provider replies converted to and from the library's types, the meeting loop
  that awaits a model provider, and the report and cost bodies that carry float costs. It
  mounts no routes: the server's route handlers read and write through the project's sibling
  store, model and core crates (`coevo_store`, `coevo_models`, `coevo_core` and others), which
  are not part of this crate.
