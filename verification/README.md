# yodawg

The core of a friendly QEMU front end, verified with Verus: everything the app
decides and every text it hands to QEMU and `qemu-img`.

- `src/text.rs` — character-level helpers: literal equality, searching, Unicode
  whitespace, `trim`, first lines, ordering, decimal and hex rendering.
- `src/vm.rs` — the VM configuration model, where each machine's files live,
  the config defaults, and the case-insensitive list order.
- `src/qemu.rs` — accelerator and CPU choice per platform, binary names, the
  stable MAC of a VM, the full QEMU command line, `qemu-img` arguments and the
  snapshot list of a `qemu-img info` report.
- `src/json.rs`, `src/qmp.rs` — a plain JSON model and the QEMU Monitor
  Protocol requests and reply handling.
- `src/session.rs`, `src/runtime.rs` — the registry of running VMs, pruning,
  the record kept for a relaunch and reattaching from it.
- `src/control.rs` — validation of names, snapshot tags and settings, building
  and editing configurations, snapshot routing and launch messages.
- `src/laws.rs` — properties proved across these functions.

`app/` is the Tauri backend around the library: commands, processes, sockets,
files and serde. `tests/` runs the library on concrete values.
