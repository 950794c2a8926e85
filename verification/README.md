# explorer

A file explorer: a window with a file list, a sidebar of places and
drives, a breadcrumb bar, a preview pane, context and menu-bar menus,
dialogs for renaming, creating, deleting and extracting, and a browser for
the inside of zip archives.

The behaviour of the explorer is a library verified with Verus; the window
and everything that touches the disk is a thin program around it.

## Layout

- `src/` — the verified library.
  - `explorer.rs` — the explorer's state and every transition a user action
    causes. A transition that needs outside work returns an `Effect`; the
    caller performs it and hands the outcome to the matching transition.
    Laws about navigation history and selection live here.
  - `view.rs` — what the window shows for a state (location bar, counts,
    rows, dialogs, preview text) and the click and key handlers.
  - `listing.rs` — directory entries, their ordering (directories first,
    then by lowercase name, stably) and hidden-file filtering.
  - `archive.rs` — listing one directory of a zip archive and moving up
    inside it.
  - `dates.rs` — the calendar conversion behind time stamps: it gives
    the Gregorian date of each day, and the stamp text sorts with the
    time, to the minute.
  - `context_menu.rs`, `sidebar.rs`, `ops.rs`, `utils.rs`, `format.rs` —
    menus, places and drives, breadcrumbs, naming new and renamed items,
    properties, icons and previews, sizes and dates.
  - `paths.rs`, `text.rs`, `order.rs` — paths as `std::path` reads them,
    text helpers, and the order on text.
- `tests/` — tests of the library on concrete values.
- `app/` — the gpui window, the file system, the clipboard and other
  programs.
