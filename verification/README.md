# wayvr

The decision logic of a VR overlay for Wayland and X11 desktops, written in
Verus: every function in `src/` carries a contract and is proved against it.

- `sets` — the overlay window manager: overlays, window sets, showing,
  hiding and toggling overlays, and saving and loading the layout.
- `wvr` — the built-in Wayland server: display names, launching clients,
  which overlay shows which window, window sizes, captured input.
- `input_capture` — exclusive input capture: device selection, key
  combinations, the emergency release and the grab watchdog.
- `hid`, `keyboard`, `swipe`, `keymap` — virtual keys and modifiers, the
  on-screen keyboard, swipe typing and keymap names.
- `whisper` — push-to-talk speech recognition around the recognizer.
- `clipboard` — serving the clipboard to X11 clients.
- `ctl` — argument and batch-line parsing of the command-line client.
- `pos`, `names`, `metrics`, `text` — positioning tabs, overlay names, the
  metrics queue and string helpers.

Each module states its laws (properties that span several calls) as public
proof functions whose names start with `law_`.

`app/` holds the command-line front end (argument parsing, output) and the
parts that compute in floating point; `tests/` runs the library on
concrete values.
