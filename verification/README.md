# dap-rs

Debug-probe protocol logic with machine-checked contracts.

- `src/swd.rs` — the Serial Wire Debug vocabulary (errors, ports, registers).
- `src/adi.rs` — the ARM Debug Interface trait; register reads and writes retry
  while the target answers WAIT.
- `src/jtag/sm.rs` — the JTAG TAP controller state machine, with proofs that
  following `step_toward` reaches any state within eight clocks and that five
  TMS-high clocks reset the controller from anywhere.
- `src/jtag/taps.rs` — the scan chain: tap declaration and selection, and the
  plans that shift instructions and data through the selected tap with the
  others in bypass.
- `src/jtag/scan.rs` — the operations of those plans, the engine's replies, and
  the steps of multi-part requests.
- `app/lib.rs` — the engine interface a probe implements and the loop that
  carries out plans and steps on it.

A request that depends on the engine's answers is driven step by step: issue
the operations of each `ScanStep::Issue`, record the reply to the last one, and
call again with all replies so far until `ScanStep::Done` gives the final
operations and the result.
