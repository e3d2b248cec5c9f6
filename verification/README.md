# tbwidget

The host logic of TB Widget, a Windows 11 taskbar plugin host, written in Verus.

- `src/` is the verified library: the plugin registry and its reconciliation
  with a directory scan, manifest validation, plugin permission checks, asset
  routing and host-script injection, HTTP request preparation, proxy choice,
  log formatting, popup placement, metric aggregation, configuration
  migration, and the decisions behind the taskbar window integration
  (attachment styles, mouse-hook routing, recovery and diagnostics).
  Every public function carries a contract; the properties that span several
  calls stand as public proof functions beside the code they speak of.
- `tests/` runs the library on concrete values.
- `app/` is the unverified shell around it: the Tauri commands, file and
  network I/O, Win32 calls, and the floating-point parts of the system monitor.

Calls into outside crates (`percent-encoding`, `reqwest`, `http`) go through a
small number of trusted wrappers, each documented where it is declared.
