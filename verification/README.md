# Krystallos

A protocol-neutral storage kernel, verified with Verus. It presents remote
storage as something like a local filesystem: connect, list, read and write at
any offset. Two backends exist, for local directories (`file://`) and for SMB2/3
shares (`smb://`).

- `src/` is the library. It holds the decisions: path normalization, endpoint
  and option parsing, error classification, the read-ahead window, the handle
  table, the request protocol and the life of an SMB session, server-side copies
  with their fallback, transfers, the course of a command, and what the command
  line prints. It performs no I/O.
  What its public functions promise stands in their contracts, and what holds
  across functions is stated as a public proof function.
- `tests/` runs the library.
- `app/` is ordinary Rust around it: the command line, the local filesystem, the
  thread that owns a libsmb2 context, and the objects that other languages bind
  to. `--cfg bindings` exports those through UniFFI.

## What is trusted

The contracts of five outside items are believed without proof: `String::push`,
the `Debug` rendering of a string, `humantime::format_rfc3339_seconds`, and the
`errno` values and open flags of `libc`. Each says in its doc comment what it
claims.
