# brook_controller_relay

Turns a Brook fight-stick (or a compatible HID game controller) into a
keyboard on macOS: each 8-byte input report is decoded into button and
hat-switch changes, mapped through the active profile to virtual key codes,
and posted as keyboard events, while the user interface is told about every
change.

Layout:

- `src/` — the library, verified with Verus: the key table and the lookups
  between key names and codes, profiles and their operations, parsing and
  formatting of device ids, the device picker's list, and the relay's
  decisions on each input report.
- `tests/` — tests of the library on concrete values.
- `app/` — the Tauri application around the library: the commands the
  frontend calls, reading and writing the configuration file, IOKit device
  access and Core Graphics keyboard events.
