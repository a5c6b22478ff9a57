# pomodoro

A terminal pomodoro timer whose state machine, log formats and screen texts are
verified with Verus.

- `src/app.rs` — the timer as a state machine: `App` and its mathematical view
  `AppView`; every operation is specified as a function from view to view. Outside
  work (files, notifications) is queued as `Effect`s.
- `src/stats.rs` — daily totals kept in date order (`DailyStats`).
- `src/store.rs` — the log, settings and todo file formats: rendering, parsing, and
  the proofs that what is written reads back.
- `src/display.rs` — the texts the screens show.
- `src/text.rs` — character-level helpers (decimal numbers, trimming, lines).
- `src/laws.rs` — properties that span several operations.
- `app/` — the terminal front end (crossterm and ratatui), the clock (libc's local
  time) and the file system; it performs the queued effects.
