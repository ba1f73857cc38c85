# device_shell

The local POS device service (printers, scales, RFID readers behind a
`localhost:3333` HTTP API), with its protocol logic written in Verus and
proved against its contracts.

- `src/` is the verified library: ESC/POS, ZPL and SBPL encoders, the LLRP
  framing, report decoder and reader session, the NCI and HID-POS scale
  decoders, device discovery and catalogs, print planning, and the answers
  of the API. Calls into `base64`, `regex` and `uuid` go through small
  trusted wrappers whose contracts are stated next to them.
- `tests/` runs the library on concrete inputs.
- `app/` is the service itself: configuration loading, the axum routes,
  serial/HID/TCP transports, process spawning and timers. It hands plain
  values to the library and acts on what comes back.
