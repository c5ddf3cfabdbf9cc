# komodo_cli

The `km` command-line client for Komodo, with its logic verified by Verus.

- `src/` is the library. Every function in it carries a contract that Verus
  proves: the exit-code marker that ends terminal output, the filter that
  streams a command's output while holding back a possibly split marker,
  temporary terminal names, the requests the terminal commands send, the
  decision to retry a container command under `sh`, what `km sync diff`
  shows, and the choices behind the tables. Public `law_*` proof functions
  state the properties that hold across calls.
- `tests/` runs the library on concrete values.
- `app/` is the program around it: argument parsing, the HTTP client, and
  printing.

Verify with `verus` on `src/lib.rs`; the trusted items (calls into `std` and
`anyhow`) are marked `#[verifier::external_body]` or declared with
`#[verifier::external_type_specification]`.
