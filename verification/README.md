# ingen_sdk

Verified core of the Ingen SDK: the canonical-ABI contract between a
WebAssembly guest and its wasmtime host for the `icmp` and `socket`
interfaces, and the emulated guest process environment.

- `src/abi.rs` — little-endian loads and stores in a return area, UTF-8
  payloads, string references, and read-after-write lemmas.
- `src/icmp.rs` — ping results: the guest checks and lifts a 48-byte return
  area, the host lowers a result into one; the options of
  `ping-with-options`. `lemma_ping_lift_lower` proves that what the host
  lowers, the guest lifts back unchanged.
- `src/socket.rs` — socket options and results; the host lifts arguments
  and lowers every result kind, the guest lifts `result<raw-fd, error>`.
  `lemma_fd_lift_lower` and `lemma_u32_lift_lower` are the round trips.
- `src/egp_env.rs` — building the environment from its variables, with
  comma-separated lists split as `str::split` does (`lemma_join_split`).

`app/` holds what cannot be verified: the raw wasm imports and resource
handles of the guest, reading the process environment, the error types with
`Display`, and the host's linker plumbing over `wit-bindgen-wasmtime`.
