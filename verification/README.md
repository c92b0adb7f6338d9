# ekphos

The core of a terminal Markdown workspace, written in Verus: every function
in `src/` carries a contract, and Verus proves all of them but the small
wrappers around outside calls, whose contracts are trusted.

- `src/` — the verified library: Markdown task lines and their metadata,
  links and images in rendered text, the task view and its filters, the
  reading view of a note (folded headings, cursor moves, link selection),
  the canvas node editor, key bindings and the keys of each dialog, themes
  and configuration values, the blocks of a note (frontmatter, code fences,
  display math, images, tasks, collapsible details, tables and their column
  metadata, headings and the outline, link ranges), content layout (wrapping, table columns,
  scrolling), the image placements kept between frames, what each command
  does and what a launch opens with, version comparison.
- `tests/` — tests run against the compiled library.
- `app/` — the program around it: command-line options, configuration and
  theme files on disk.

Outside crates: `chrono` (calendar dates), `unicode-width` and
`unicode-segmentation` (display widths and grapheme clusters) are called from
`src/` behind small wrappers whose contracts name what they return; `serde`,
`toml` and `dirs` are used by `app/`.
