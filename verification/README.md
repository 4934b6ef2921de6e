# gilt

Terminal formatting primitives with machine-checked contracts: colors and
their ANSI codes, palettes and terminal themes, box-drawing characters, cell
widths, ANSI escape tokenizing and decoding into styled runs, a dot-matrix
canvas, small widgets (badges, breadcrumbs, accordions, column layouts with
column fitting, console options, bar-chart row geometry), two-way conversion
of colors and style attributes with `anstyle`, and named-style themes with
their INI form, style-definition checking and a layered theme stack.

Every function in `src/` is verified with Verus against a specification
stated over mathematical models (`Seq`, `Map`, integers). Calls into
`unicode-width`, `lru` and `anstyle` go through small trusted wrappers whose
contracts say what those crates guarantee.

Layout:

- `src/` — the verified library; `lib.rs` lists the modules.
- `tests/` — executable tests of the library.
- `app/` — the unverified rim: environment and terminal queries, theme
  files and theme JSON, the process-wide color cache, and the floating-point
  helpers (blending, HLS, WCAG contrast, bar values).
