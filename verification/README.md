# tetra_entities

The protocol entities of a TETRA base station — call control (CMCE), mobility management (MM),
MLE broadcasts, the Brew/TetraPack backhaul rules, the Asterisk voice framing and the lite
stack-health view — written in Verus, with their behaviour stated in `requires`/`ensures`
contracts and proved.

Layout:

- `src/` — the verified library. Handlers take the fields of parsed PDUs and control messages
  as plain values and append what they send to a queue of actions (`CcAction`, `MmAction`).
  - `cmce/` — PDU type dispatch, the circuit manager, and the call-control sub-entity
    (`cc_bs/`): group and individual calls, local, echo and Brew-routed set-up, floor control,
    DTMF forwarding, external subscriber numbers; the SS-DGNA supplementary service
    (`ss_bs.rs`); and the entity's own dispatch of operator control commands and subscriber
    updates (`cmce_bs.rs`).
  - `mm/` — the MS registry, location updating, group attachment, DGNA, energy economy, and
    restart recovery (cache gate, replay and reactive re-keying).
  - `mle/`, `net_brew/`, `net_asterisk/`, `health/`, `backlight.rs` — broadcasts and network
    time, Brew routing and the voice jitter buffer, RTP/TMD/G.711 framing, health roll-up and
    watchdog, backlight rules.
- `tests/` — tests of the library on concrete values.
- `app/` — the I/O edge: sysfs backlight node, recovery cache file (JSON), health sampler
  thread, wall-clock jitter estimate, the speech codec over FFI, and the serialised forms the
  dashboard and telemetry read.
