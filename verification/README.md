# noir

A lightweight terminal IDE: a file explorer with git markers, a read-only
viewer with diff and blame modes, quick-open, colour themes and embedded
shells, in one terminal window.

## Layout

- `src/` is the verified library. Every function carries a Verus contract:
  - `text`, `sort`, `paths`: strings, ordering and path helpers.
  - `search`: the file index and the fuzzy ranking of quick-open.
  - `git`: status, branch and blame parsing, and the argument lists of the
    git commands.
  - `tree`: the explorer tree, its flattened rows, selection and scrolling.
  - `theme`, `syntax`: palettes, file colours, and how a file's syntax is
    looked up.
  - `viewer`: the open tabs and their modes.
  - `term`, `screen`: a shell pane around the `vt100` parser, and how its
    screen is painted.
  - `ui`: the frame's geometry, click targets and tab strips.
  - `workbench`, `input`, `route`, `pointer`, `events`: the workbench state
    and how every key, mouse event, file change and shell event changes it.
    Work that needs the outside world (git, the file system, the shells) is
    handed out as `Action`s and its results come back through methods.
  - `watch`, `clock`: file-watcher events and the monotonic clock.
- `app/` is the program: the command line, the terminal set-up, drawing with
  ratatui, syntax highlighting with syntect, the shells, git and the file
  watcher, and the loop that runs the workbench's actions.
- `tests/` runs the library on concrete values.
