# container_client

A client for Apple's `container-apiserver` XPC service
(`com.apple.container.apiserver`), split in two crates:

- `src/` — the verified library (Verus). It builds the request
  dictionaries, reads replies, and decides the transport and server errors
  (the `Xpc` and `Api` errors) and the C interface's error JSON:
  `xpc.rs` models XPC dictionaries and the connection decisions,
  `lib.rs` holds the three operations (list, stats, logs) and the helpers of
  the C interface, `error.rs` the error type and its text, `text.rs` the
  C-string check and decimal formatting, `routes.rs` the protocol models that
  the logic handles.
- `app/` — the I/O around it: the libxpc bindings and transport, JSON
  encoding of the protocol models with serde (and its errors), log file
  descriptors (and their I/O errors), the panic on a container id holding NUL
  (checked before the library's request builders, which require a C string),
  and the `extern "C"` entry points.
