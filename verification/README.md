# swd

The logic of SWD, a Windows desktop dashboard that sits above the wallpaper
and below the desktop icons, written in Verus and proved against its
contracts.

- `src/` is the verified library:
  - `settings` — per-plugin settings (enabled flag and JSON configuration),
    with laws on reading back changes and on changes to one plugin leaving
    the others alone;
  - `plugins` — which plugin directories are offered (with distinct ids),
    and whether a requested file lies inside a plugin's own directory,
    itself directly inside the plugins directory;
  - `media` — the now-playing card's state, the artwork `data:` URL, the
    media thread's start and its reaction to each wake-up, the one live
    subscription, and the subscription to a
    media session's events with unwinding on failure;
  - `hit_test` — when the window's click-through flag is switched;
  - `monitor` — which monitor the dashboard covers;
  - `system_info` — network byte totals;
  - `tray` — what the tray menu items do;
  - `window_layer` — which window messages call for pinning the window
    again.
- `app/` is the Tauri shell around it: window setup, the operating-system
  and WinRT calls, file I/O, JSON (de)serialization and the floating-point
  statistics.
- `tests/` runs the library on concrete values.
