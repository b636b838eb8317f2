# aspeed_rot

Verified core of the ASPEED Root-of-Trust and coprocessor firmware: the
hardware-independent decisions of the PFR (NIST SP 800-193) lifecycle, written
in Verus and proved against their contracts.

## Layout

- `src/` — the verified library.
  - `pfr` — the lifecycle state machine (Init → TMinus1 → Verify → Release →
    Monitor, with Recover and the terminal Lockdown) and its laws.
  - `runtime` — the event-driven wrapper the executor drives.
  - `protocol` — mailbox, checkpoint and update-intent mapping onto PFR events.
  - `flash`, `manifest` — flash layouts, recovery plans, platform firmware
    manifests, key and AFM descriptors, and their validation.
  - `provision` — the provisioning command/state model.
  - `verify` — manifest checks and the per-image verification stages.
  - `filter` — the SPI write-protect table, SCU routing values and the SPI
    monitor command allow-list.
  - `backend` — AST1060 flash-window, page-program and crypto-parameter rules.
  - `bootmcu` — AST2700 BootMCU boot decisions (secure-boot policy, IDEVID
    provisioning, CA35 boot header, payload checks, TRNG entropy).
  - `ipc` — the protobuf codec of the inter-core IPC envelope.
  - `console` — byte-level UART formatting.
  - `platform`, `sensor` — platform traits and the sensor data model.
- `tests/` — executable tests of the library.
- `app/` — the AST1060 firmware around the library: the Embassy executor, the
  asynchronous platform traits, the flash/crypto/board backends and the AST2700
  BootMCU boot steps that touch hardware.
