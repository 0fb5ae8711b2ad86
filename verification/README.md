# nodera_desktop

The decision logic of the Nodera desktop knowledge workspace, written in
Verus and proved against its contracts.

- `src/` is the verified library. Each module holds one part of the
  workspace's logic with spec functions that say what it computes:
  `date` and `calendar` (the Today view's month grid and navigation),
  `today`, `keys`, `shortcuts` and `menus` (keyboard and top-bar
  decisions), `dialogs` (naming, renaming, going to a date, quick capture),
  `file_tree` (the sidebar's pane and visible rows), `graph`, `graph_style`,
  `graph_colors` and `search` (the graph view's node order, edges,
  neighbourhoods, drawing, colours and filters), `properties` (front-matter
  values and tags), `links` (embedded-note targets), `symbols` (source
  projects' code graphs), `citations`,
  `editor` and `outline` (status line, cursor position, table of contents),
  `labels`, `settings`, `startup` and `files` (including how a file is
  opened in an editor). Laws that relate
  several functions are public proof functions next to them.
- `tests/` runs the library on concrete values.
- `app/` is the unverified shell around it: start-up, the clock, the file
  system, launching programs, YAML conversion and the floating-point force layout
  of the graph.
