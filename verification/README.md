# remote_trackpad_backend

The desktop side of a remote trackpad: a phone sends pointer motion and
scrolling as UDP datagrams (`M,<dx>,<dy>`, `S,<dx>,<dy>`) and clicks, Alt+Tab
and volume commands as TCP messages (`left_click`, `alt_tab_start`, ...).

- `src/` is the library, verified with Verus: text primitives (`text`), both
  wire formats (`protocol`), the controller that drives an input device and
  tracks an Alt+Tab gesture (`controller`), and the settings checks
  (`settings`).
- `app/` is the program around it: the Tokio network server, the `enigo`
  input device, and the `eframe` settings window with its tray icon.
- `tests/` runs the library on concrete payloads.
