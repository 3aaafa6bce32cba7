# kata_checkpoint

Checkpoint and restore of sandboxes that run in Cloud Hypervisor VMs: the
decisions, verified with Verus.

- `src/` is the library. It adapts snapshot configurations, places block disks,
  plans file operations, runs the start of a VM and the checkpoint of a sandbox
  as state machines, parses logs, mount tables and command lines, and sizes the
  guest. Every function has a contract; functions named `law_*` state what holds
  across functions.
- `app/` is `shim-ctl`, and the code that carries out plans and steps on a host.
  It decides nothing that the library decides.
- `tests/` runs the library on concrete values.

## What is trusted

- `serde_json` reads, writes and renders documents, and says why it could not
  (`src/json.rs`). The library relies on reading back what was written, for
  documents whose numbers are integers and that nest no deeper than the reader
  allows.
- `String::push` (`src/text.rs`), and the debug representation of strings in
  error messages (`src/block_disks.rs`).

Everything else in `src/` is proved.
