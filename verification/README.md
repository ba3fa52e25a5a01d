# valet

valet provides butler to the itch app as a native Node.js addon, and keeps
its companion components up to date. This crate holds the decision logic of
valet with its contracts proved by Verus; the runtime around it (network and
file I/O, async plumbing, the butler and N-API foreign interfaces, the small
command-line programs) is ordinary Rust.

## Layout

- `src/` — the verified library.
  - `ara` — random access built from a pool of sequential readers, with
    least-recently-returned eviction.
  - `htfs` — HTTP resources read through ranged requests: sizing, range
    headers, section readers, connection pools and sequential readers.
  - `backoff`, `httpkit` — retrying fallible work, and which HTTP failures
    are worth retrying.
  - `selfupdate` — platform detection and the broth distribution server.
  - `libbutler`, `napi`, `winhook`, `mingw_setup` — status codes, error
    reports and the code and environment that the native glue needs.
  - `config`, `logging` — the addon's configuration and log records.
  - `text` — decimal and hexadecimal rendering and parsing, stated over
    `Seq<char>`.
- `app/` — the runtime side, built on the library.
- `tests/` — tests of the library on concrete values.
