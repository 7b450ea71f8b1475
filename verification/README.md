# termreader

A terminal reader for web novels and local text files, with a library kept
in categories, a reading history and saved progress.

- `src/` is the library, verified with Verus:
  - `catalog/`: the books in memory, the library's categories, the history,
    the update list, and what is saved of them;
  - `sources/` and `scrape/`: the novels, chapters and sources, and reading
    the sites' pages (through `scraper`, `regex` and `chrono`);
  - `reader/`: the book being read, the window on a local file, and laying
    the page out at the terminal's size;
  - `state/`: the app's screens, menus, selections, and what each key does;
  - `laws.rs`: what holds across calls (round trips, invariants).
- `app/` is the terminal program: drawing with ratatui, reading the keys,
  fetching pages on other threads, and reading and writing files.
- `tests/` runs the library on concrete values.
