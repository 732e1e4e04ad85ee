# work_time_visualizer

The logic of a small Windows taskbar widget that shows how far the work day
and the work week have progressed, as two rows of colored blocks, written in
Verus with its behaviour stated in contracts and proved.

- `src/` — the verified library:
  - `config.rs`: the configuration (schedule, colors, display) and its
    defaults; what loading the configuration file comes to.
  - `time_calc.rs`: day and week progress as exact fractions of minutes,
    minutes remaining, `format_mins`; laws on monotonicity and on where the
    bars start and end.
  - `native_interop.rs`: `Color` (hex parsing, COLORREF and pixel packing),
    UTF-16 encoding for Win32 strings, window-style bit updates, DPI fallback.
  - `theme.rs`: dark/light decision from the registry value.
  - `window.rs`: window-message dispatch, block fills, row layout, row
    colors, widget position.
- `app/` — the Win32 program around it: window, message loop, GDI drawing,
  registry and clock reads, the JSON file (serde), DPI scaling.
- `tests/` — tests of the library on concrete values.
