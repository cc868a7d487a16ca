# tab_bar

The tab row of a terminal shell, verified with Verus.

- `src/config.rs`, `src/datetime.rs`: the entries of the status areas, their colors, formats and
  schedules, and the diagnostics for what is wrong with them.
- `src/model.rs`: tabs, status segments, theme, and the map of mouse hits.
- `src/scroll.rs`, `src/strip.rs`: how far the tabs are scrolled, and where tabs and buttons stand.
- `src/status.rs`, `src/status_paint.rs`: where the status areas stand, and how they are painted.
- `src/tabs.rs`, `src/row.rs`: the tabs of the row, the drop mark, and the row as a whole.
- `src/strip_laws.rs`, `src/row_laws.rs`: what holds of every layout.
- `src/rect.rs`, `src/paint.rs`, `src/text.rs`: rectangles, paint steps, and text.
- `app/`: the serde form of the entries, and painting onto a ratatui buffer.

Drawing is a list of paint steps (`paint::Canvas`). The contracts of the drawing functions state
which steps are added and what becomes of the scroll place and of the hit map.
