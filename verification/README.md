# finalizer

A CPU frequency scheduler for Android devices, with its decision logic
verified by Verus.

- `src/` is the verified library:
  - `text` — whitespace, trimming, words, lines, unsigned decimal parsing and
    printing, substring search, each proved against a spec of the matching
    `str`/integer operation;
  - `config` — the configuration records, their models and accessors;
  - `cpu_handle::cpu_freq` — the policy table, the file paths of a policy,
    the text written to and read from frequency files;
  - `cpu_handle::cpu_stat` — the load tracker over `/proc/stat` snapshots and
    the per-round frequency request;
  - `scheduler` — the event router and the mode, screen and game watchers, as
    functions from state and input to next state and requests;
  - `devices::touch` — the touch record, device choice and touch boost.
- `app/` is the daemon: file and device I/O, threads, channels, the logger,
  and the floating-point frequency target.
- `tests/` runs the library on concrete inputs, and compares the text
  functions with the standard library.
