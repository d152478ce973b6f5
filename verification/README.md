# bsr_core

The verified core of a live-stream recorder: cookie handling for the
supported platforms, account selection, guest-account refresh, TikTok page
and API data, the TikTok QR login, recorder bookkeeping, HLS requests and
clip naming. Every function in `src/` carries a Verus contract; the laws
that relate several functions are proved in `src/laws.rs` and beside the
functions they concern.

- `src/` — the library (Verus).
- `tests/` — tests run against the compiled library.
- `app/` — a command-line front end: it reads files and talks to the
  network, and leaves the decisions to the library.
