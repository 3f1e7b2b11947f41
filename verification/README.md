# varnish

Support code for writing Varnish VMODs in Rust, with its logic verified by
Verus.

## Layout

- `src/` — the verified library.
  - `http.rs`: the slot table of an HTTP object (first line and header
    lines), header lookup, `set_header`, `unset_header`, `weaken_etag`, and
    the laws that relate them.
  - `txt.rs`, `workspace.rs`: parsing of `name: value` lines and the
    workspace that new lines are written into.
  - `ctx.rs`: the request context, the state of the request body and how it
    is read out.
  - `backend.rs`, `director.rs`, `native_backend.rs`, `endpoint.rs`,
    `probe.rs`, `vcl.rs`: backends, directors and their configuration.
  - `backend_set.rs`: the backend set that directors select from, with the
    healthy-list, first-healthy and round-robin selections.
  - `metrics.rs`, `gen_objects.rs`, `vtc_tests.rs`: the computations behind
    the VMOD macros (VSC metric metadata, `$OBJ` layout, VTC test names).
- `tests/` — tests of the library.
- `app/` — what runs around the library: code generation with `syn`, `quote`
  and `serde_json`, the VTC file glob, the locked and weighted backend set,
  and conversions from std types.
