# rich_rs

Rich text and layout for the terminal: styles, markup, text wrapping, segments and
their ANSI output, padding, alignment, columns, hyperlinks in terminal output, JSON, Markdown, highlighting, layout
arithmetic and the layout tree's division, live displays (the stack of live displays, how
they are drawn and the cursor movements that redraw them) and the capturing console. The
library under `src/` is verified with Verus:
each public function states in its contract what it returns or changes.

- `src/` — the verified library.
- `tests/` — tests of the library.
- `app/` — terminal size and detection, standard output, files, pager processes,
  floating-point formatting (file sizes, progress bars) and the shared handles of the
  layout tree, which the library divides.
