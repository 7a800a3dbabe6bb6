# cmux_core

Firmware for a TTGO T-Call (ESP32 + SIM800L) that runs 3GPP TS 27.010
basic-mode CMUX over the modem UART, so AT status traffic (DLC1) and PPP
(DLC2) share one serial line, with the framing and the modem bring-up
decisions verified with Verus.

Layout:

- `src/` — the verified library.
  - `address.rs`, `control.rs`, `fcs.rs`: address octet, control octet and
    CRC-8 frame check sequence.
  - `frame.rs`: frame encoder and the byte-fed frame decoder; `roundtrip.rs`
    proves that the decoder reads back what the encoder writes.
  - `info_buf.rs`: the decoder's `heapless::Vec` payload buffer, behind
    trusted wrappers.
  - `state.rs`: per-channel open/close state.
  - `dispatcher.rs`, `opener.rs`, `tx.rs`, `buffered.rs`: decisions of the
    CMUX runtime (frame routing, channel opening with retries, transmit
    requests and chunking, read-ahead buffer).
  - `text.rs`, `bringup.rs`, `script.rs`, `status.rs`, `config.rs`: AT
    response handling, the bring-up command script, the status poll and the
    broker port setting.
  - `ip5306.rs`: PMIC set-up error type.
- `tests/` — tests of the library.
- `app/` — the firmware around the library: `main`, async tasks, UART,
  GPIO, I2C, PPP, TCP/TLS.
