# gitover

A terminal overview of many git repositories at once: their branches, working
tree status, ahead/behind counts, history and operations such as fetch, pull
and push, grouped into named sections.

## Layout

- `src/` is the verified library. Each module states its behaviour in
  `requires`/`ensures` contracts that Verus proves:
  - `app*.rs`: the application state (repositories, selection, sections,
    menus, popups, focus, operation log, history view) and the laws that
    relate its operations (`app_laws.rs`);
  - `keys.rs`, `panes.rs`, `layout.rs`: what a key press or a mouse event
    means in each state, and the geometry of the panes;
  - `scan.rs`: reading a repository's status and branches through `git2`;
    what git2 reads depends on the disk, and each step that turns what it read
    into the status (classifying files, labels, ahead/behind entries, the trunk
    choice, branch lists with their merged-to-trunk marks, the order of each
    commit's files) is a verified function with an exact contract;
  - `state.rs`, `persist.rs`, `state_laws.rs`: the saved state and its
    round-trip laws; `config.rs`, `cli.rs`, `utils.rs`, `text.rs`: settings,
    arguments, path and text helpers;
  - `ops.rs`, `git.rs`, `order.rs`, `watcher.rs`: operation steps, history
    filters, ordering rules and the file watcher's decisions.
- `tests/` runs the library on concrete values.
- `app/` is the program around it: terminal drawing, input, file and process
  I/O, the watcher thread and the YAML documents.
