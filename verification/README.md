# orbit_bluez

The settings and BlueZ logic of a Bluetooth panel, verified with Verus.

- `src/config.rs` — default settings, settings read from a file (each one the
  file leaves out at its default), and the settings file's path under `$HOME`.
- `src/text.rs` — characters of a string, substring search, lexicographic
  order, with the order's laws.
- `src/dbus/properties.rs` — `StrMap`, a name-to-value map whose names are
  distinct, and `PropValue`, the property values the device logic reads.
- `src/dbus/devices.rs` — device records read from BlueZ properties, the
  stable sort of the device list (connected, then paired, then by name) and
  its laws.
- `src/dbus/bluez.rs` — the method calls made on BlueZ and the checks before
  them, the rfkill report, powering on, and the wait for the adapter.
- `app/` — the I/O: reading the settings file, running `rfkill`, and the
  asynchronous zbus exchanges that perform the planned calls.
