# PrisTimer

A desktop focus timer: a stopwatch or countdown built on an anchor model
(elapsed time is `accumulated + (now - anchor)`, never a sum of ticks), a
pomodoro cycle on top of it, and a SQLite session log that survives crashes
and restarts.

## Layout

- `src/` — the verified library (Verus).
  - `timer`, `clock`, `runtime`: the timer engine, its time sources, and the
    decisions of its worker thread.
  - `pomodoro`, `manager`: the pomodoro cycle and the mode around it.
  - `session`, `db`, `store`: session records and the SQLite store, with the
    start-up recovery rules.
  - `recorder`: how engine snapshots become session records.
  - `tags`, `export`, `calendar`, `backup`, `window`: tag rules and daily goals,
    CSV exports, dates, the daily snapshot rotation, window placement.
  - `insight`, `device`, `http`, `quota`, `text`: the ambient-information
    panel (Bluetooth devices and the quota query) and string helpers.
- `tests/` — tests of the library.
- `app/` — the Tauri shell: start-up, threads, files, the tray, the commands,
  and the quota response parser (its amounts are floating point).
