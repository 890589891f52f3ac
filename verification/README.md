# ww_ocr

The verified core of a desktop tool for screen capture, pinned images and
OCR. The library in `src/` holds the tool's rules and algorithms, each with
a contract that Verus proves:

- `layout`, `sorting`, `layout_order`: turning recognized text boxes back
  into lines and columns of text, the same whatever order the recognizer
  listed them in.
- `capture`, `session`, `capture_actions`, `composition`, `acquisition`:
  the virtual desktop, the capture session's phases, who may act on a
  capture, and composing the selected pixels from the monitor captures.
- `pin_window`, `pixels`, `pins`, `main_window`: native pin windows (keys,
  menu, placement on the connected monitors, geometry, resampling,
  premultiplied pixels), reopening pins, and
  when the hidden main window is destroyed.
- `shortcut_apply`, `shortcuts`: applying global shortcuts step by step,
  with rollback, and the capture and tray key tables.
- `image_import`, `storage`, `deletion`, `ids`: which images are accepted,
  where they are stored, and how deletions are reported.
- `ocr_engine`, `diagnostics`, `records`, `text`: recognizer decisions,
  log-safe error categories, record rules and schema upgrades.

`app/` is the desktop program around the library: the Tauri commands,
screen capture, SQLite, files, the recognizer and the Win32 pin windows.
