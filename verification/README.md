# l123-graph

Terminal rendering of spreadsheet graphs (Line, Bar, Stack, XY, Pie, HLCO,
Mixed) into a `ratatui` buffer, verified with Verus.

Every painter first plans its strokes as plain data (`marks::Stroke`) and
then draws them; `marks::draw` is proved to leave in the buffer exactly what
applying the strokes in order describes, and each painter's contract names
the strokes it plans. The buffer itself is reached through a few trusted
wrappers around `ratatui::buffer::Buffer` (`src/canvas.rs`).

- `src/` — the verified library: the cell model and strokes (`canvas`,
  `strokes`, `marks`), the chrome around the plot (`chrome`, `frame`,
  `layout`), the graph painters (`bars`, `stacked`, `horizontal`, `plots`,
  `hlco`, `pie`, `mixed`, `labels`), the settings and values (`model`, `series`), and
  properties of the whole (`laws`).
- `app/` — the `render` entry point over `f64` series: it scales values
  onto the cell grid (floating point) and hands the painters integers.
- `tests/` — scenario tests run against the real `ratatui` buffer.
