# lowtech

A minimal command-line tool for Logitech HID++ devices: list devices, read
DPI and battery, watch button presses, and reassign mouse buttons in the
mouse's onboard profile.

The protocol logic is a library verified with Verus (`src/`); the binary
(`app/main.rs`) does the HID I/O, file I/O and printing.

## Layout

- `src/hidpp.rs` — errors, request framing, reply and ping matching, the
  device's feature table, device-name reading.
- `src/features.rs` — feature / device-type / battery names, DPI decoding.
- `src/crc.rs` — CRC-16/CCITT-FALSE of profile sectors.
- `src/buttons.rs` — button specs: decoding, validity, target parsing.
- `src/onboard.rs` — onboard-profile info, control sector, sector read and
  write, profile checks, remap planning and readback, backup and restore.
- `src/cli.rs` — HID++ interface paths, slot selection, labels, pressed-button
  names.
- `src/watch.rs` — classifying input-report bytes into motion and buttons.
- `src/text.rs` — hex/decimal formatting, number parsing, string helpers.

Each module states its contracts over spec functions; the `law_*` proof
functions state what holds across calls (a written checksum validates and
catches any one-byte change, a remapped sector reads back as written, a
second remap to the same target writes nothing, a backup is written back
whole, discovery builds the feature table from the first reply naming each
feature, and so on).
