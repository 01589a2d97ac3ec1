# flatpakmgr

A terminal manager for Flatpak applications. The library in `src/` is
verified with Verus; `app/` is the program around it.

- `src/flatpak_service/`: the domain types, the errors, the parsers for the
  output of `flatpak list`, `remotes`, `history`, `info`, `permissions` and
  `search`, the progress lines of running jobs, and the bookkeeping of
  background jobs.
- `src/app/`: the application state, the key bindings, and how query results
  and job events change the state. Work for the outside world comes back as an
  `Action`.
- `src/ui.rs`: the texts the screen shows (status line, job labels, detail
  lines, padding, scrolling).
- `src/text.rs`, `src/time.rs`: character-level helpers, and calendar times
  through chrono.
- `app/`: terminal setup, the event loop, running `flatpak`, and drawing with
  ratatui.

## Keys

Global: `q` quit, `?` help, `J` jobs, `1`-`5` tabs. `Tab` cycles the focus
tab bar → list → details; `Shift+Tab` and `Esc` return to the tab bar.
On the list: `j`/`k` move, `r` refreshes the current tab, `u`/`U` update one
or all, `d` uninstalls, `p` shows permissions (`r` there resets them), `e`
enables or disables a remote, `/` on the Install tab focuses the search
field, where typing searches and `Enter` installs the selected hit.
