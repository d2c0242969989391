# way-shell core

The verified core of the Way-Shell desktop shell for Wayland compositors: the
parsers, state rules and decisions of its services, each stated as a contract
and proved with Verus.

- `src/` is the library. Each module holds the rules of one service: audio
  routing and mixer snapshots, Bluetooth power and radio control, brightness
  requests, the `way-sh` command protocol and its write queue, logind sessions
  and idle inhibition, media players, NetworkManager plans, notifications,
  UPower devices, power profiles, the keyboard-shortcut sheet and the discovery
  of Niri's configuration, themes, the StatusNotifier tray (items, menus,
  watcher requests and the registry of items and hosts), and the Wayland
  connection state (outputs, seats, windows and gamma control). `keyed.rs`
  keeps records in ascending key order, as an ordered map does.
- `tests/` runs the library on concrete values.
- `app/` holds what stays outside the proofs: reading files, processes and the
  environment, converting D-Bus values, and the readings the services keep as
  floating-point numbers.

Protocol objects, D-Bus proxies and GTK widgets stay with the caller: each
verified step takes plain values and returns what the caller must do next.
