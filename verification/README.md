# sher_input

The input subsystem of the SHER platform: it turns device activity into one canonical,
ordered, timestamped event stream, with per-device state tracking, controlled
coalescing, an explicit capture contract and scoped synthetic input. The library is
written in Verus and its behaviour is stated in contracts that Verus proves.

Layout:

- `src/` — the verified library.
  - `service.rs`: normalization of backend events (`spec_ingest` states it case by
    case), sequencing, synthetic-input grants, and the laws that span operations.
  - `ordering.rs`: the delivery order of a whole run of reports and frame flushes.
  - `coalesce.rs`, `capture.rs`, `registry.rs`, `keyboard.rs`, `pointer.rs`,
    `touch.rs`: the pieces the service is built from, each with an abstract view.
  - `linux/`: evdev key codes, decoding of raw event batches, device classification
    and hotplug bookkeeping, all on plain values.
  - `monitor.rs`: what the event monitor computes besides printing.
- `tests/` — tests on concrete values.
- `app/` — the `sher-input-monitor` program and everything that does I/O: the tokio
  pump and frame ticker around the service, backend threads, evdev device access.

Scroll deltas are counted in 1/120 of a wheel notch and positions are integers, so the
whole model is integer arithmetic.
