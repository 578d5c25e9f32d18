# bandwith

A lightweight per-process bandwidth monitor. Network events are summed per
flow (process, remote address, remote port, protocol), labelled with process
names and reverse-DNS names, and written to SQLite in time buckets.

Layout:

- `src/` — the verified library (Verus). Flow aggregation, the process-name
  cache, decoding of kernel network events, address classification and
  reverse-DNS query names, the resolver's decisions, filesystem locations,
  the read-side queries and the synthetic demo data, each with its contract.
  Calls into `dirs`, `rusqlite`, `toml` and the standard clocks sit behind
  small trusted wrappers whose contracts state only what those functions
  document.
- `app/` — the program around it: command-line parsing (`clap`), logging,
  the SQLite row writer, the reverse-DNS cache (`moka`) and resolver task
  (`hickory-resolver` on `tokio`), and on Windows the ETW session
  (`ferrisetw`) and process-table snapshot (`windows`).
- `tests/` — tests of the library.
